use codex_auth::clock::{now_ms, now_sec, reading_in_ms, reading_in_sec, seconds_of_ms};
use codex_auth::text::{
    contains, decimal_of, ends_with, is_blank, is_less, is_listed, join, pad_right, same,
    starts_with, to_lower,
};

#[test]
fn case_and_equality() {
    assert_eq!(to_lower("AbC Ä1"), "abc Ä1");
    assert!(same("a", "a"));
    assert!(!same("a", "A"));
}

#[test]
fn searching() {
    assert!(contains("abcabd", "abd"));
    assert!(contains("abc", ""));
    assert!(!contains("abc", "abcd"));
    assert!(!contains("abc", "ac"));
    assert!(starts_with("rollout-1", "rollout-"));
    assert!(!starts_with("roll", "rollout-"));
    assert!(ends_with("x.jsonl", ".jsonl"));
    assert!(!ends_with("l", ".jsonl"));
}

#[test]
fn order() {
    for (a, b) in [("a", "b"), ("a", "ab"), ("", "a"), ("Z", "a"), ("é", "\u{1f600}"), ("a", "é")] {
        assert!(is_less(a, b) && a < b);
        assert!(!is_less(b, a));
    }
    assert!(!is_less("a", "a"));
}

#[test]
fn numbers_and_layout() {
    assert_eq!(decimal_of(0), "0");
    assert_eq!(decimal_of(1_000), "1000");
    assert_eq!(decimal_of(u64::MAX as u128), "18446744073709551615");
    assert_eq!(pad_right("é", 3), "é  ");
    assert_eq!(pad_right("abcd", 3), "abcd");
    assert_eq!(join(&Vec::new(), ", "), "");
    assert!(is_listed(&["a".to_owned()], "a"));
    assert!(!is_listed(&[], "a"));
}

#[test]
fn blanks() {
    for c in ['\t', '\n', '\u{b}', '\u{c}', '\r', ' ', '\u{85}', '\u{a0}', '\u{1680}', '\u{2003}', '\u{2028}', '\u{3000}'] {
        assert!(c.is_whitespace());
        assert!(is_blank(&c.to_string()));
    }
    assert!(is_blank(""));
    assert!(!is_blank(" x "));
    assert!(!is_blank("\u{200b}"));
}

#[test]
fn clock() {
    assert!(now_ms() / 1000 - now_sec() <= 1);
    assert_eq!(reading_in_ms(None), 0);
    assert_eq!(reading_in_ms(Some(1_714_566_600_250)), 1_714_566_600_250);
    assert_eq!(reading_in_ms(Some(i64::MAX as u128 + 1)), i64::MIN);
    assert_eq!(reading_in_ms(Some((1u128 << 64) + 7)), 7);
    assert_eq!(reading_in_sec(None), 0);
    assert_eq!(reading_in_sec(Some(1_714_566_600)), 1_714_566_600);
    assert_eq!(reading_in_sec(Some(u64::MAX)), -1);
    assert_eq!(seconds_of_ms(1_999), 1);
    assert_eq!(seconds_of_ms(-1_999), -1);
}
