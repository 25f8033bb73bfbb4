use drive_explorer::text::{
    characters, is_whitespace_char, parse_unsigned, same_text, split_whitespace, starts_with,
};

#[test]
fn characters_are_the_chars_of_the_text() {
    assert_eq!(characters("a\u{e9}z"), vec!['a', '\u{e9}', 'z']);
    assert_eq!(characters(""), Vec::<char>::new());
}

#[test]
fn whitespace_is_the_unicode_property() {
    for code in 0u32..0x11000 {
        if let Some(c) = char::from_u32(code) {
            assert_eq!(is_whitespace_char(c), c.is_whitespace(), "U+{:04X}", code);
        }
    }
}

#[test]
fn split_whitespace_gives_the_words() {
    assert_eq!(split_whitespace("add_op  person\tprofile 2..3 "), vec![
        "add_op".to_string(),
        "person".to_string(),
        "profile".to_string(),
        "2..3".to_string()
    ]);
    assert_eq!(split_whitespace("e 5"), vec!["e".to_string(), "5".to_string()]);
}

#[test]
fn split_whitespace_of_blank_lines_is_empty() {
    assert_eq!(split_whitespace(""), Vec::<String>::new());
    assert_eq!(split_whitespace(" \t\n\u{3000} "), Vec::<String>::new());
}

#[test]
fn split_whitespace_agrees_with_std() {
    let lines = [
        "a",
        " a",
        "a ",
        "\u{a0}x\u{2003}y\u{85}z",
        "load_strategy   s1",
        "na\u{ef}ve caf\u{e9}",
        "\u{1680}",
    ];
    for line in lines {
        let expected: Vec<String> = line.split_whitespace().map(|word| word.to_string()).collect();
        assert_eq!(split_whitespace(line), expected, "{:?}", line);
    }
}

#[test]
fn parse_unsigned_reads_decimals() {
    assert_eq!(parse_unsigned("0", 10), Some(0));
    assert_eq!(parse_unsigned("42", 100), Some(42));
    assert_eq!(parse_unsigned("007", 100), Some(7));
    assert_eq!(parse_unsigned("+7", 100), Some(7));
    assert_eq!(parse_unsigned("18446744073709551615", u64::MAX), Some(u64::MAX));
}

#[test]
fn parse_unsigned_keeps_to_the_maximum() {
    assert_eq!(parse_unsigned("65535", 65535), Some(65535));
    assert_eq!(parse_unsigned("65536", 65535), None);
    assert_eq!(parse_unsigned("9", 5), None);
    assert_eq!(parse_unsigned("18446744073709551616", u64::MAX), None);
    assert_eq!(parse_unsigned("99999999999999999999999", u64::MAX), None);
}

#[test]
fn parse_unsigned_turns_down_what_is_no_number() {
    assert_eq!(parse_unsigned("", 100), None);
    assert_eq!(parse_unsigned("+", 100), None);
    assert_eq!(parse_unsigned("-1", 100), None);
    assert_eq!(parse_unsigned("1a", 100), None);
    assert_eq!(parse_unsigned("a1", 100), None);
    assert_eq!(parse_unsigned("1 ", 100), None);
    assert_eq!(parse_unsigned("++1", 100), None);
    assert_eq!(parse_unsigned("1.5", 100), None);
    assert_eq!(parse_unsigned("\u{662}", 100), None);
}

#[test]
fn parse_unsigned_agrees_with_std() {
    let words = ["0", "1", "+1", "-0", "65535", "65536", "000065535", "", "+", "12x", "4294967296"];
    for word in words {
        assert_eq!(parse_unsigned(word, 65535), word.parse::<u16>().ok().map(u64::from), "{:?}", word);
        assert_eq!(parse_unsigned(word, u64::MAX), word.parse::<u64>().ok(), "{:?}", word);
    }
}

#[test]
fn starts_with_tests_the_prefix() {
    assert!(starts_with("add_op x", "add_op "));
    assert!(starts_with("a", ""));
    assert!(starts_with("", ""));
    assert!(!starts_with("add_op", "add_op "));
    assert!(!starts_with("xadd_op ", "add_op "));
    assert!(!starts_with("", "a"));
}

#[test]
fn same_text_compares_the_characters() {
    assert!(same_text("exit", "exit"));
    assert!(same_text("", ""));
    assert!(!same_text("exit", "exit "));
    assert!(!same_text("exit", "exiT"));
}
