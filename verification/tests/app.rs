use chat_relay::app::{App, MAX_LENGTH};
use chat_relay::handler::{Action, Event, Session};
use chat_relay::update::{update, Key};
use chat_relay::users::try_to_login;

const SAMPLE_TEXT: &str =
    "Lorem ipsum dolor sit amet, consectetur adipiscing elit. Sed non risus. Suspendisse";

/// A server of one connection for tests: what it writes, and what it
/// publishes and so gets back, is what the client reads next.
struct Server {
    session: Session,
    outbox: Vec<String>,
}

impl Server {
    fn accept() -> Server {
        let (session, actions) = Session::start_at("00:00");
        let mut server = Server { session, outbox: vec![] };
        server.perform(actions);
        server
    }

    fn perform(&mut self, actions: Vec<Action>) {
        for action in actions {
            match action {
                Action::Write(line) => self.outbox.push(line),
                Action::Validate(login) => {
                    let next = self.session.step_at(Event::Verdict(try_to_login(login)), "00:00");
                    self.perform(next);
                }
                Action::Subscribe => {}
                Action::Publish(line) => {
                    let next = self.session.step_at(Event::Delivered(line), "00:00");
                    self.perform(next);
                }
            }
        }
    }

    fn receive(&mut self, data: Option<String>) {
        if let Some(data) = data {
            let actions = self.session.step_at(Event::Received(data.into_bytes()), "00:00");
            self.perform(actions);
        }
    }

    fn read(&mut self) -> Vec<u8> {
        if self.outbox.is_empty() {
            vec![]
        } else {
            self.outbox.remove(0).into_bytes()
        }
    }
}

fn sample_app() -> App {
    App {
        input: SAMPLE_TEXT.to_string(),
        cursor_position: 0,
        messages: vec![],
        should_quit: false,
    }
}

#[test]
fn test_invalid_cursor_moves() {
    let mut app = sample_app();
    app.move_cursor_left();
    assert_eq!(app.cursor_position, 0);
    for i in 0..app.input.len() {
        app.move_cursor_right();
        assert_eq!(app.cursor_position, i + 1);
    }
    app.move_cursor_right();
    assert_eq!(app.cursor_position, app.input.len());
}

#[test]
fn test_inserts_and_deletions() {
    let mut app = sample_app();
    app.add_char('a');
    assert_eq!(app.input, format!("a{}", SAMPLE_TEXT));
    app.remove_char();
    assert_eq!(app.input, SAMPLE_TEXT);
    app.move_cursor_right();
    app.move_cursor_right();
    app.add_char('a');
    assert_eq!(app.input, format!("Loarem ipsum dolor sit amet, consectetur adipiscing elit. Sed non risus. Suspendisse"));
    app.move_cursor_left();
    app.move_cursor_left();
    app.remove_char();
    assert_eq!(app.input, format!("oarem ipsum dolor sit amet, consectetur adipiscing elit. Sed non risus. Suspendisse"));
}

#[test]
fn test_messages() {
    let mut server = Server::accept();
    let mut app = sample_app();
    app.get_messages(&server.read());
    assert_eq!(app.messages[0], "SYSTEM: [00:00] Please enter [username]:[password]");

    app.input = "ptr:123456".to_string();
    server.receive(app.submit_message());

    app.get_messages(&server.read());
    assert_eq!(app.messages[1], "SYSTEM: [00:00] Welcome to the chat!");

    app.get_messages(&server.read());
    assert_eq!(app.messages[2], "SYSTEM: [00:00] ptr logged in");

    app.input = "Hello there!".to_string();
    server.receive(app.submit_message());

    app.get_messages(&server.read());
    assert_eq!(app.messages[3], "[00:00] ptr: Hello there!");
}

#[test]
fn new_app_is_empty() {
    let app = App::new();
    assert_eq!(app.input, "");
    assert_eq!(app.cursor_position, 0);
    assert!(app.messages.is_empty());
    assert!(!app.should_quit);
}

#[test]
fn add_char_stops_at_the_limit() {
    let mut app = App::new();
    app.input = "x".repeat(MAX_LENGTH - 1);
    app.cursor_position = 3;
    app.add_char('y');
    assert_eq!(app.input.len(), MAX_LENGTH);
    assert_eq!(&app.input[..5], "xxxyx");
    assert_eq!(app.cursor_position, 4);
    app.add_char('z');
    assert_eq!(app.input.len(), MAX_LENGTH);
    assert_eq!(app.cursor_position, 4);
    assert!(!app.input.contains('z'));
}

#[test]
fn add_char_counts_the_limit_in_bytes() {
    let mut app = App::new();
    app.input = "ż".repeat(MAX_LENGTH / 2);
    app.cursor_position = 0;
    app.add_char('a');
    assert_eq!(app.input.chars().count(), MAX_LENGTH / 2);
    assert_eq!(app.cursor_position, 0);
}

#[test]
fn cursor_counts_bytes() {
    let mut app = App::new();
    app.input = "ż".to_string();
    app.cursor_position = 1;
    app.move_cursor_right();
    assert_eq!(app.cursor_position, 2);
    app.move_cursor_right();
    assert_eq!(app.cursor_position, 2);
    app.move_cursor_left();
    assert_eq!(app.cursor_position, 1);
}

#[test]
fn characters_go_in_and_out_at_byte_offsets() {
    let mut app = App::new();
    app.input = "żw".to_string();
    app.cursor_position = 2;
    app.add_char('ó');
    assert_eq!(app.input, "żów");
    assert_eq!(app.cursor_position, 3);
    app.remove_char();
    assert_eq!(app.input, "żw");
    assert_eq!(app.cursor_position, 2);
    app.cursor_position = 3;
    app.add_char('!');
    assert_eq!(app.input, "żw!");
    assert_eq!(app.cursor_position, 4);
    app.cursor_position = 1;
    app.remove_char();
    assert_eq!(app.input, "w!");
    assert_eq!(app.cursor_position, 0);
}

#[test]
fn remove_char_at_the_start_does_nothing() {
    let mut app = sample_app();
    app.remove_char();
    assert_eq!(app.input, SAMPLE_TEXT);
    assert_eq!(app.cursor_position, 0);
}

#[test]
fn reset_and_clear() {
    let mut app = sample_app();
    app.cursor_position = 7;
    app.reset_cursor();
    assert_eq!(app.cursor_position, 0);
    assert_eq!(app.input, SAMPLE_TEXT);
    app.clear_input();
    assert_eq!(app.input, "");
}

#[test]
fn submit_message_sends_the_line_unless_empty() {
    let mut app = sample_app();
    assert_eq!(app.submit_message(), Some(SAMPLE_TEXT.to_string()));
    assert_eq!(app.input, SAMPLE_TEXT);
    app.clear_input();
    assert_eq!(app.submit_message(), None);
}

#[test]
fn get_messages_parts_lines_and_skips_empty_ones() {
    let mut app = App::new();
    app.get_messages(b"");
    assert!(app.messages.is_empty());
    app.get_messages(b"\n\nfirst\n\nsecond line\n\n\n");
    assert_eq!(app.messages, ["first", "second line"]);
    app.get_messages(b"third\n");
    assert_eq!(app.messages, ["first", "second line", "third"]);
    app.get_messages(b"\n");
    assert_eq!(app.messages.len(), 3);
}

#[test]
fn get_messages_repairs_malformed_bytes() {
    let mut app = App::new();
    app.get_messages(&[b'a', 0xff, b'\n', 0xc5, 0xbc, b'\n']);
    assert_eq!(app.messages, ["a\u{fffd}", "ż"]);
}

#[test]
fn update_follows_the_keys() {
    let mut app = App::new();
    for c in "helo".chars() {
        assert_eq!(update(&mut app, Key::Char(c)), None);
    }
    assert_eq!(update(&mut app, Key::Left), None);
    assert_eq!(update(&mut app, Key::Char('l')), None);
    assert_eq!(app.input, "hello");
    assert_eq!(app.cursor_position, 4);
    assert_eq!(update(&mut app, Key::Right), None);
    assert_eq!(update(&mut app, Key::Right), None);
    assert_eq!(app.cursor_position, 5);
    assert_eq!(update(&mut app, Key::Char('!')), None);
    assert_eq!(update(&mut app, Key::Char('?')), None);
    assert_eq!(update(&mut app, Key::Backspace), None);
    assert_eq!(app.input, "hello!");
    assert_eq!(update(&mut app, Key::Other), None);
    assert_eq!(app.input, "hello!");
    assert!(!app.should_quit);
    assert_eq!(update(&mut app, Key::Enter), Some("hello!".to_string()));
    assert_eq!(app.input, "hello!");
    assert_eq!(app.cursor_position, 6);
    app.line_sent();
    assert_eq!(app.input, "");
    assert_eq!(app.cursor_position, 0);
    app.cursor_position = 3;
    assert_eq!(update(&mut app, Key::Enter), None);
    assert_eq!(app.input, "");
    assert_eq!(app.cursor_position, 0);
    assert_eq!(update(&mut app, Key::Esc), None);
    assert!(app.should_quit);
}

#[test]
fn line_sent_makes_room_for_the_next_line() {
    let mut app = sample_app();
    app.cursor_position = 11;
    app.messages.push("kept".to_string());
    app.line_sent();
    assert_eq!(app.input, "");
    assert_eq!(app.cursor_position, 0);
    assert_eq!(app.messages, ["kept"]);
    assert!(!app.should_quit);
}
