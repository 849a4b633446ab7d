use telemetry::text::{
    characters, decimal_text, is_blank, is_white_space, parse_number, same, starts_with, trim,
    trim_end_matches,
};

#[test]
fn trimming_agrees_with_the_standard_library() {
    for text in ["", " ", "a", " a ", "\t a b \u{3000}\n", "\u{a0}\u{200a}x\u{2028}", "\u{200b}x"] {
        assert_eq!(trim(text), text.trim());
        assert_eq!(is_blank(text), text.trim().is_empty());
    }
}

#[test]
fn white_space_is_the_unicode_property() {
    for n in 0..0x11_0000u32 {
        if let Some(c) = char::from_u32(n) {
            assert_eq!(is_white_space(c), c.is_whitespace(), "{n:x}");
        }
    }
}

#[test]
fn numbers_agree_with_the_standard_library() {
    for text in [
        "", "+", "0", "007", "+5", "-5", "++5", "5 ", "1_000", "18446744073709551615",
        "18446744073709551616", "99999999999999999999999", "٣", "12a",
    ] {
        assert_eq!(parse_number(text), text.parse::<u64>().ok(), "{text}");
    }
}

#[test]
fn decimals_agree_with_the_standard_library() {
    for n in [0u64, 7, 10, 99, 100, 65535, u64::MAX] {
        assert_eq!(decimal_text(n), format!("{n}"));
        assert_eq!(parse_number(&decimal_text(n)), Some(n));
    }
}

#[test]
fn prefixes_and_suffixes_are_characters() {
    assert!(starts_with("grün", "grü"));
    assert!(starts_with("x", ""));
    assert!(!starts_with("", "x"));
    assert!(same("ä", "ä") && !same("a", "ä"));
    assert_eq!(trim_end_matches("a//b///", '/'), "a//b");
    assert_eq!(trim_end_matches("///", '/'), "");
    assert_eq!(characters("aß"), vec!['a', 'ß']);
}
