use chat_relay::users::{try_to_login, MAX_NAME_LENGTH, PASSWORD_LENGTH};

#[test]
fn logins_of_the_right_shape_are_accepted() {
    assert_eq!(try_to_login("piotrek:123456".to_string()), Some("piotrek".to_string()));
    assert_eq!(try_to_login("kasia:123456".to_string()), Some("kasia".to_string()));
    assert_eq!(try_to_login("ptr:123456".to_string()), Some("ptr".to_string()));
    assert_eq!(try_to_login("a:000000".to_string()), Some("a".to_string()));
    assert_eq!(try_to_login("żółw:987654".to_string()), Some("żółw".to_string()));
}

#[test]
fn logins_of_another_shape_are_turned_down() {
    assert_eq!(try_to_login("wrong:123:543".to_string()), None);
    assert_eq!(try_to_login("aaaaaaaaaaaaaaaaaaaaaaaaaaa:123456".to_string()), None);
    assert_eq!(try_to_login("aa:a:123456".to_string()), None);
    assert_eq!(try_to_login("".to_string()), None);
    assert_eq!(try_to_login(":123456".to_string()), None);
    assert_eq!(try_to_login("piotrek".to_string()), None);
    assert_eq!(try_to_login("piotrek:".to_string()), None);
    assert_eq!(try_to_login("piotrek:12345".to_string()), None);
    assert_eq!(try_to_login("piotrek:1234567".to_string()), None);
    assert_eq!(try_to_login("piotrek:12345a".to_string()), None);
    assert_eq!(try_to_login("piotrek:123456\n".to_string()), None);
    assert_eq!(try_to_login("piotrek:१२३४५६".to_string()), None);
}

#[test]
fn name_length_is_bounded() {
    assert_eq!(MAX_NAME_LENGTH, 13);
    assert_eq!(PASSWORD_LENGTH, 6);
    let longest = "n".repeat(MAX_NAME_LENGTH);
    assert_eq!(try_to_login(format!("{}:123456", longest)), Some(longest.clone()));
    assert_eq!(try_to_login(format!("{}n:123456", longest)), None);
}
