use agent_mcp::order::{stable_order, text_before};
use agent_mcp::text::{
    contains, decimal, is_white_char, join, parse_unsigned, recent_chars_from, signed_decimal,
    strip_prefix, strip_tail, to_lower, trim, trim_start, truncate_chars,
};

#[test]
fn white_space_is_what_unicode_says() {
    for n in 0..=0x10ffffu32 {
        if let Some(c) = char::from_u32(n) {
            assert_eq!(is_white_char(c), c.is_whitespace(), "{n:x}");
        }
    }
}

#[test]
fn texts_are_trimmed_and_cut() {
    assert_eq!(trim(" \u{3000}a b\n"), "a b");
    assert_eq!(trim_start("\t x "), "x ");
    assert_eq!(strip_tail("a///", "/"), "a");
    assert_eq!(strip_prefix("data: x", "data:").unwrap(), " x");
    assert!(strip_prefix("dat", "data").is_none());
    assert_eq!(truncate_chars("你好吗", 2), "你好...");
    assert_eq!(recent_chars_from("你好吗", 2), "好吗");
    assert_eq!(to_lower("ÄBc"), "Äbc");
    assert!(contains("abc", ""));
    assert!(contains("abc", "bc"));
    assert!(!contains("abc", "cb"));
    assert_eq!(join(&vec!["a".to_string(), "b".to_string()], ", "), "a, b");
}

#[test]
fn numbers_are_written_and_read() {
    for n in [0, 9, 10, 12_345, u64::MAX] {
        assert_eq!(decimal(n), n.to_string());
        assert_eq!(parse_unsigned(&decimal(n)), Some(n));
    }
    for n in [0, -1, i64::MIN, i64::MAX] {
        assert_eq!(signed_decimal(n), n.to_string());
    }
    for text in ["", "-1", "1.5", "18446744073709551616", "x", " 1", "+", "+7", "007"] {
        assert_eq!(parse_unsigned(text), text.parse::<u64>().ok(), "{text}");
    }
}

#[test]
fn orders_are_stable() {
    assert_eq!(stable_order(&vec![3i64, 1, 3, 2], false), vec![1, 3, 0, 2]);
    assert_eq!(stable_order(&vec![3i64, 1, 3, 2], true), vec![0, 2, 3, 1]);
    assert!(text_before("a", "b"));
    assert!(text_before("a", "aa"));
    assert!(!text_before("a", "a"));
    for (a, b) in [("Z", "a"), ("é", "z"), ("\u{ffff}", "\u{10000}"), ("", "x")] {
        assert_eq!(text_before(a, b), a < b);
    }
}
