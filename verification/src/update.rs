//! What a key does to the client.

use vstd::prelude::*;
use crate::app::{
    between_chars, byte_len, cursor_in_line, lemma_parts, text_after, text_before, App, AppView,
    MAX_LENGTH,
};

verus! {

/// A key that was pressed.
#[derive(Clone, Copy, Debug, PartialEq, Eq, Structural)]
pub enum Key {
    /// A key that stands for a character.
    Char(char),
    Backspace,
    Enter,
    Left,
    Right,
    Esc,
    /// Any other key.
    Other,
}

/// `key` can be applied to the client: where it puts a character in, the
/// cursor stands between two characters; where it takes one out, a
/// character begins one byte before the cursor.
pub open spec fn key_allowed(app: AppView, key: Key) -> bool {
    match key {
        Key::Char(_) => byte_len(app.input) < MAX_LENGTH ==> between_chars(
            app.input,
            app.cursor_position,
        ),
        Key::Backspace => app.cursor_position > 0 ==> app.cursor_position <= byte_len(app.input)
            && between_chars(app.input, app.cursor_position - 1),
        _ => true,
    }
}

/// The client after `key`, and the line that is to be sent to the server
/// because of it. `Enter` leaves a line that is to be sent in place: it
/// is for the sender to clear it once it is sent.
pub open spec fn spec_update(app: AppView, key: Key) -> (AppView, Option<Seq<char>>) {
    match key {
        Key::Char(c) => if byte_len(app.input) >= MAX_LENGTH {
            (app, None)
        } else {
            (
                AppView {
                    input: text_before(app.input, app.cursor_position) + seq![c] + text_after(
                        app.input,
                        app.cursor_position,
                    ),
                    cursor_position: app.cursor_position + 1,
                    ..app
                },
                None,
            )
        },
        Key::Backspace => if app.cursor_position > 0 {
            (
                AppView {
                    input: text_before(app.input, app.cursor_position - 1) + text_after(
                        app.input,
                        app.cursor_position - 1,
                    ).drop_first(),
                    cursor_position: app.cursor_position - 1,
                    ..app
                },
                None,
            )
        } else {
            (app, None)
        },
        Key::Enter => if app.input.len() > 0 {
            (app, Some(app.input))
        } else {
            (AppView { cursor_position: 0, ..app }, None)
        },
        Key::Left => (
            AppView {
                cursor_position: if app.cursor_position > 0 {
                    app.cursor_position - 1
                } else {
                    0
                },
                ..app
            },
            None,
        ),
        Key::Right => (
            AppView {
                cursor_position: if app.cursor_position < byte_len(app.input) {
                    app.cursor_position + 1
                } else {
                    app.cursor_position
                },
                ..app
            },
            None,
        ),
        Key::Esc => (AppView { should_quit: true, ..app }, None),
        Key::Other => (app, None),
    }
}

/// A key leaves the cursor inside the line.
pub proof fn lemma_update_keeps_cursor_in_line(app: AppView, key: Key)
    requires
        cursor_in_line(app),
        key_allowed(app, key),
    ensures
        cursor_in_line(spec_update(app, key).0),
{
    match key {
        Key::Char(c) => {
            if byte_len(app.input) < MAX_LENGTH {
                lemma_parts(app.input, app.cursor_position, c);
            }
        },
        Key::Backspace => {
            if app.cursor_position > 0 {
                lemma_parts(app.input, app.cursor_position - 1, ' ');
            }
        },
        _ => {},
    }
}

/// Applies `key` to the client. Returns the line that is to be sent to the
/// server: the line typed, when `Enter` ends one that is not empty. That
/// line stays in place; once it is sent, `App::line_sent` makes room for
/// the next.
pub fn update(app: &mut App, key: Key) -> (send: Option<String>)
    requires
        key_allowed(old(app)@, key),
    ensures
        final(app)@ == spec_update(old(app)@, key).0,
        send is Some == spec_update(old(app)@, key).1 is Some,
        send is Some ==> send->0@ == spec_update(old(app)@, key).1->0,
{
    match key {
        Key::Char(c) => {
            app.add_char(c);
            None
        },
        Key::Backspace => {
            app.remove_char();
            None
        },
        Key::Enter => {
            let send = app.submit_message();
            if send.is_none() {
                assert(app@.input =~= Seq::<char>::empty());
                app.line_sent();
            }
            send
        },
        Key::Left => {
            app.move_cursor_left();
            None
        },
        Key::Right => {
            app.move_cursor_right();
            None
        },
        Key::Esc => {
            app.should_quit = true;
            None
        },
        Key::Other => None,
    }
}

} // verus!
