use chat_relay::helper_fns::{gen_color, split_line, try_split_line, wrap_line, Color};

const SAMPLE_TEXT: &str =
    "Lorem ipsum dolor sit amet, consectetur adipiscing elit. Sed non risus. Suspendisse";

#[test]
fn test_split_line() {
    let (line, lines_used) = split_line(SAMPLE_TEXT, 10, false);
    assert_eq!(lines_used, 12);
    assert_eq!(
        line,
        "Lorem \nipsum \ndolor sit \namet, \nconsectetu\nr \nadipiscing\n elit. \nSed non \nrisus. \nSuspendiss\ne"
    );
}

#[test]
fn split_line_leaves_out_system_prefix() {
    let (line, lines_used) = split_line("SYSTEM: [00:00] Welcome to the chat!", 80, false);
    assert_eq!(line, "[00:00] Welcome to the chat!");
    assert_eq!(lines_used, 1);
}

#[test]
fn split_line_full_last_row_takes_a_row_more_when_typing() {
    assert_eq!(split_line("abcde", 5, true), ("abcde".to_string(), 2));
    assert_eq!(split_line("abcde", 5, false), ("abcde".to_string(), 1));
    assert_eq!(split_line("abcdefghij", 5, true), ("abcde\nfghij".to_string(), 3));
    assert_eq!(split_line("abcdefghi", 5, true), ("abcde\nfghi".to_string(), 2));
}

#[test]
fn split_line_of_nothing() {
    assert_eq!(split_line("", 0, false), (String::new(), 1));
    assert_eq!(split_line("", 0, true), (String::new(), 2));
    assert_eq!(split_line("SYSTEM: ", 0, false), (String::new(), 1));
    assert_eq!(split_line("", 7, true), (String::new(), 1));
}

#[test]
fn split_line_breaks_after_last_whitespace_that_fits() {
    assert_eq!(split_line("ab cd ef", 4, false), ("ab \ncd \nef".to_string(), 3));
    assert_eq!(split_line("a b c d", 3, false), ("a \nb \nc d".to_string(), 3));
}

#[test]
fn split_line_measures_rows_in_bytes() {
    // Five characters in six bytes: too long for a window five wide.
    assert_eq!(split_line("a b ż", 5, false), ("a b \nż".to_string(), 2));
    assert_eq!(split_line("a b ż", 6, false), ("a b ż".to_string(), 1));
    assert_eq!(split_line("a b ż", 6, true), ("a b ż".to_string(), 2));
    assert_eq!(split_line("żż", 4, true), ("żż".to_string(), 2));
}

#[test]
fn wrap_line_tells_what_cannot_be_broken() {
    assert_eq!(wrap_line("a b ż", 5), Some(("a b \nż".to_string(), 2, 2)));
    assert_eq!(wrap_line("SYSTEM: hello", 5), Some(("hello".to_string(), 1, 5)));
    // The break would fall inside a character.
    assert_eq!(wrap_line("żółw żółw", 5), None);
    // Longer than the window in bytes, but too few characters to look
    // through.
    assert_eq!(wrap_line("żż", 3), None);
    // A window without width shows nothing but the empty line.
    assert_eq!(wrap_line("a", 0), None);
    assert_eq!(wrap_line("", 0), Some((String::new(), 1, 0)));
}

#[test]
fn gen_color_is_one_of_the_palette_and_stable() {
    let palette = [
        Color::LightGreen,
        Color::LightBlue,
        Color::LightMagenta,
        Color::LightCyan,
        Color::White,
        Color::Blue,
        Color::Magenta,
        Color::Cyan,
    ];
    for name in ["piotrek:", "kasia:", "ptr:", "", "a"] {
        let first = gen_color(name.to_string());
        assert!(palette.contains(&first));
        assert_eq!(first, gen_color(name.to_string()));
    }
}

#[test]
fn gen_color_tells_names_apart() {
    let mut seen = vec![];
    for i in 0..64 {
        let color = gen_color(format!("user{}", i));
        if !seen.contains(&color) {
            seen.push(color);
        }
    }
    assert!(seen.len() > 1);
}

#[test]
fn try_split_line_breaks_what_can_be_broken() {
    assert_eq!(try_split_line("ab cd ef", 4, false), Some(("ab \ncd \nef".to_string(), 3)));
    assert_eq!(try_split_line("abcde", 5, true), Some(("abcde".to_string(), 2)));
    assert_eq!(try_split_line("żółw żółw", 5, false), None);
    assert_eq!(try_split_line("a", 0, false), None);
    let long = "x".repeat(65535);
    assert_eq!(try_split_line(&long, 1, false).map(|r| r.1), Some(65535));
    assert_eq!(try_split_line(&long, 1, true), None);
    let longer = "x".repeat(65536);
    assert_eq!(try_split_line(&longer, 1, false), None);
}
