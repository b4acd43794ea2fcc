use chat_relay::message::{
    normal_msg, normal_msg_at, system_msg, system_msg_at, BAD_LOGIN_MSG, LOGIN_PROMPT,
    MAX_LINE_LENGTH, SYSTEM_MSG_PREF, WELCOME_MSG,
};

fn is_clock(time: &str) -> bool {
    let b = time.as_bytes();
    b.len() == 5
        && b[0].is_ascii_digit()
        && b[1].is_ascii_digit()
        && b[2] == b':'
        && b[3].is_ascii_digit()
        && b[4].is_ascii_digit()
        && (b[0] - b'0') * 10 + (b[1] - b'0') < 24
        && (b[3] - b'0') * 10 + (b[4] - b'0') < 60
}

#[test]
fn system_msg_at_formats_each_system_line() {
    assert_eq!(
        system_msg_at("00:00", LOGIN_PROMPT),
        "SYSTEM: [00:00] Please enter [username]:[password]\n"
    );
    assert_eq!(
        system_msg_at("23:59", BAD_LOGIN_MSG),
        "SYSTEM: [23:59] Wrong username or password\n"
    );
    assert_eq!(system_msg_at("12:34", WELCOME_MSG), "SYSTEM: [12:34] Welcome to the chat!\n");
    assert_eq!(system_msg_at("07:05", "kasia logged in"), "SYSTEM: [07:05] kasia logged in\n");
    assert_eq!(system_msg_at("07:06", "kasia logged out"), "SYSTEM: [07:06] kasia logged out\n");
}

#[test]
fn normal_msg_at_formats_a_chat_line() {
    assert_eq!(normal_msg_at("00:00", "ptr", "Hello there!"), "[00:00] ptr: Hello there!\n");
    assert_eq!(normal_msg_at("10:20", "piotrek", ""), "[10:20] piotrek: \n");
}

#[test]
fn system_msg_carries_the_time_of_sending() {
    let line = system_msg(WELCOME_MSG);
    assert!(line.starts_with("SYSTEM: ["));
    assert!(line.ends_with("] Welcome to the chat!\n"));
    let time = &line["SYSTEM: [".len()..line.len() - "] Welcome to the chat!\n".len()];
    assert!(is_clock(time), "{}", time);
}

#[test]
fn normal_msg_carries_the_time_of_sending() {
    let line = normal_msg("piotrek", "Hello!");
    assert!(line.starts_with("["));
    assert!(line.ends_with("] piotrek: Hello!\n"));
    let time = &line[1..line.len() - "] piotrek: Hello!\n".len()];
    assert!(is_clock(time), "{}", time);
}

#[test]
fn constants_of_the_wire() {
    assert_eq!(MAX_LINE_LENGTH, 1024);
    assert_eq!(SYSTEM_MSG_PREF, "SYSTEM:");
    assert_eq!(LOGIN_PROMPT, "Please enter [username]:[password]");
    assert_eq!(WELCOME_MSG, "Welcome to the chat!");
    assert_eq!(BAD_LOGIN_MSG, "Wrong username or password");
}
