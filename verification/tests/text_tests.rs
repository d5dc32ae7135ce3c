use zirconium::number::{format_u32, parse_u32};
use zirconium::text::{
    contains_char, find_char, join_strs, split_char, split_once_char, str_eq, trim_str,
    white_space,
};

#[test]
fn find_and_split_once() {
    assert_eq!(find_char("a b c", ' '), Some(1));
    assert_eq!(find_char("abc", ' '), None);
    assert_eq!(find_char("héllo wörld", 'w'), Some(6));
    assert_eq!(split_once_char("a b c", ' '), Some(("a", "b c")));
    assert_eq!(split_once_char("abc", ' '), None);
    assert_eq!(split_once_char("é=ü", '='), Some(("é", "ü")));
}

#[test]
fn split_keeps_empty_pieces() {
    assert_eq!(split_char("a,,b,", ','), vec!["a", "", "b", ""]);
    assert_eq!(split_char("", ','), vec![""]);
}

#[test]
fn join_pieces() {
    let parts = vec!["a".to_string(), "b".to_string(), "c".to_string()];
    assert_eq!(join_strs(&parts, ","), "a,b,c");
    assert_eq!(join_strs(&vec![], ","), "");
}

#[test]
fn split_join_round_trip() {
    let parts = vec!["#x".to_string(), "".to_string(), "#y".to_string()];
    assert_eq!(split_char(&join_strs(&parts, ","), ','), parts);
}

#[test]
fn trimming() {
    assert_eq!(trim_str("  a b \r\n"), "a b");
    assert_eq!(trim_str("\u{3000}x\u{85}"), "x");
    assert_eq!(trim_str(" \t "), "");
    assert!(white_space('\u{2028}'));
    assert!(!white_space('x'));
}

#[test]
fn equality_and_contains() {
    assert!(str_eq("JOIN", "JOIN"));
    assert!(!str_eq("JOIN", "JOINS"));
    assert!(contains_char("a b", ' '));
    assert!(!contains_char("ab", ' '));
}

#[test]
fn parse_u32_cases() {
    assert_eq!(parse_u32("42"), Some(42));
    assert_eq!(parse_u32("+42"), Some(42));
    assert_eq!(parse_u32("0007"), Some(7));
    assert_eq!(parse_u32("4294967295"), Some(u32::MAX));
    assert_eq!(parse_u32("4294967296"), None);
    assert_eq!(parse_u32(""), None);
    assert_eq!(parse_u32("+"), None);
    assert_eq!(parse_u32("-1"), None);
    assert_eq!(parse_u32("12a"), None);
    assert_eq!(parse_u32("١٢"), None);
}

#[test]
fn parse_u32_agrees_with_std() {
    for t in ["0", "+0", "99", "+", "", "4294967295", "4294967296", "1 ", " 1", "++1"] {
        assert_eq!(parse_u32(t), t.parse::<u32>().ok(), "{}", t);
    }
}

#[test]
fn format_u32_cases() {
    assert_eq!(format_u32(0), "0");
    assert_eq!(format_u32(10), "10");
    assert_eq!(format_u32(u32::MAX), "4294967295");
    for n in [0u32, 1, 9, 10, 99, 100, 12345, u32::MAX] {
        assert_eq!(format_u32(n), n.to_string());
        assert_eq!(parse_u32(&format_u32(n)), Some(n));
    }
}
