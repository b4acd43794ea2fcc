use chat_relay::text::{from_chars, span_end, to_chars, trim_both, trim_tail};

#[test]
fn to_chars_gives_each_character() {
    assert_eq!(to_chars("zażółć"), vec!['z', 'a', 'ż', 'ó', 'ł', 'ć']);
    assert_eq!(to_chars(""), Vec::<char>::new());
}

#[test]
fn from_chars_joins_characters() {
    assert_eq!(from_chars(&['a', 'ß', 'c']), "aßc");
    assert_eq!(from_chars(&[]), "");
}

#[test]
fn chars_round_trip() {
    let text = "Lorem ipsum — dolor\nsit amet";
    assert_eq!(from_chars(&to_chars(text)), text);
}

#[test]
fn span_end_finds_the_first_stop() {
    let chars = to_chars("ab cd ef");
    assert_eq!(span_end(&chars, 0, ' '), 2);
    assert_eq!(span_end(&chars, 2, ' '), 2);
    assert_eq!(span_end(&chars, 3, ' '), 5);
    assert_eq!(span_end(&chars, 6, ' '), 8);
    assert_eq!(span_end(&chars, 8, ' '), 8);
}

#[test]
fn trim_both_takes_whitespace_from_both_ends() {
    assert_eq!(trim_both("  Hello there! \r\n"), "Hello there!");
    assert_eq!(trim_both("\u{a0}\t a b \u{3000}"), "a b");
    assert_eq!(trim_both(" \n\t "), "");
    assert_eq!(trim_both(""), "");
    assert_eq!(trim_both("x"), "x");
}

#[test]
fn trim_tail_takes_whitespace_from_the_end_only() {
    assert_eq!(trim_tail("  piotrek:123456 \r\n"), "  piotrek:123456");
    assert_eq!(trim_tail(" \n\t "), "");
    assert_eq!(trim_tail(""), "");
    assert_eq!(trim_tail("x\u{2028}"), "x");
}

#[test]
fn trims_agree_with_the_standard_library() {
    for text in ["", " ", " a ", "\u{85}a\u{85}", "a\u{200b}", "\x0b\x0c a\x1c", "żółw \u{1680}"] {
        assert_eq!(trim_both(text), text.trim());
        assert_eq!(trim_tail(text), text.trim_end());
    }
}

#[test]
fn whitespace_is_what_the_library_lists() {
    let listed = |c: char| {
        let n = c as u32;
        (0x09..=0x0D).contains(&n)
            || n == 0x20
            || n == 0x85
            || n == 0xA0
            || n == 0x1680
            || (0x2000..=0x200A).contains(&n)
            || n == 0x2028
            || n == 0x2029
            || n == 0x202F
            || n == 0x205F
            || n == 0x3000
    };
    for n in 0..=0x10FFFFu32 {
        if let Some(c) = char::from_u32(n) {
            assert_eq!(c.is_whitespace(), listed(c), "U+{:04X}", n);
        }
    }
}
