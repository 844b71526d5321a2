use openchamber_tauri::text::{
    contains, contains_char, decimal_string, is_blank, lower_eq, parse_unsigned_decimal,
    same_text, starts_with, trim, trim_end_slashes, white_space,
};

#[test]
fn trim_removes_unicode_white_space_at_both_ends() {
    assert_eq!(trim("  \t hello world \n"), "hello world");
    assert_eq!(trim("\u{3000}x\u{2029}"), "x");
    assert_eq!(trim("   "), "");
    assert_eq!(trim(""), "");
    assert_eq!(trim("a"), "a");
}

#[test]
fn white_space_matches_std() {
    for c in ['\t', '\n', ' ', '\u{85}', '\u{a0}', '\u{1680}', '\u{2000}', '\u{200a}', '\u{3000}', 'a', '0', '\u{200b}', '\u{7f}'] {
        assert_eq!(white_space(c), c.is_whitespace(), "{:?}", c);
    }
}

#[test]
fn blank_strings() {
    assert!(is_blank(" \t "));
    assert!(is_blank(""));
    assert!(!is_blank(" a "));
}

#[test]
fn trailing_slashes_are_removed() {
    assert_eq!(trim_end_slashes("http://127.0.0.1:4096///"), "http://127.0.0.1:4096");
    assert_eq!(trim_end_slashes("///"), "");
    assert_eq!(trim_end_slashes("a/b"), "a/b");
}

#[test]
fn prefixes_and_substrings() {
    assert!(starts_with("https://x", "https://"));
    assert!(!starts_with("http", "https://"));
    assert!(contains("HTTP/1.1 200 OK", " 200 "));
    assert!(!contains("HTTP/1.1 2000", " 200 "));
    assert!(contains("abc", ""));
    assert!(contains_char("10.0.0.1", '.'));
    assert!(!contains_char("fe80::1", '.'));
    assert!(same_text("abc", "abc"));
    assert!(!same_text("abc", "abd"));
    assert!(!same_text("abc", "ab"));
}

#[test]
fn ascii_case_insensitive_comparison() {
    assert!(lower_eq("TRUE", "true"));
    assert!(lower_eq("Yes", "yes"));
    assert!(!lower_eq("tru", "true"));
    assert!(!lower_eq("falsey", "true"));
}

#[test]
fn unsigned_parsing_follows_from_str() {
    for s in ["0", "42", "+42", "007", "65535", "65536", "", "+", "-1", "4 2", "99999999999999999999", "12a"] {
        let expected = s.parse::<u16>().ok().map(|v| v as u64);
        assert_eq!(parse_unsigned_decimal(s, 65535), expected, "{:?}", s);
    }
    assert_eq!(parse_unsigned_decimal("4294967295", 0xFFFF_FFFF), Some(4294967295));
    assert_eq!(parse_unsigned_decimal("4294967296", 0xFFFF_FFFF), None);
}

#[test]
fn decimal_strings() {
    assert_eq!(decimal_string(0), "0");
    assert_eq!(decimal_string(7), "7");
    assert_eq!(decimal_string(57123), "57123");
    assert_eq!(decimal_string(u128::MAX), u128::MAX.to_string());
}

#[test]
fn decimal_text_parses_back() {
    for p in [0u16, 1, 80, 4096, 57123, 65535] {
        assert_eq!(parse_unsigned_decimal(&decimal_string(p as u128), 65535), Some(p as u64));
    }
}
