use ai_search_mcp::number::{decimal_string, parse_unsigned};
use ai_search_mcp::text::{
    concat2, contains, ends_with, eq_ignore_ascii_case, lines, replace, split_char, starts_with,
    str_eq, strip_prefix, trim, trim_end_matches, trim_start_matches,
};

#[test]
fn trim_removes_unicode_whitespace_at_both_ends() {
    assert_eq!(trim("  a b \n"), "a b");
    assert_eq!(trim("\u{3000}x\u{a0}\t"), "x");
    assert_eq!(trim(" \n\t "), "");
    assert_eq!(trim(""), "");
    assert_eq!(trim("x"), "x");
}

#[test]
fn trim_matches_remove_every_copy() {
    assert_eq!(trim_start_matches("[SUB_QUERY][SUB_QUERY] x", "[SUB_QUERY]"), " x");
    assert_eq!(trim_start_matches("abc", ""), "abc");
    assert_eq!(trim_end_matches("x``````", "```"), "x");
    assert_eq!(trim_end_matches("x````", "```"), "x`");
}

#[test]
fn prefix_suffix_and_containment() {
    assert!(starts_with("https://a", "https://"));
    assert!(!starts_with("http", "https://"));
    assert!(ends_with("a/v1/chat/completions", "/v1/chat/completions"));
    assert!(!ends_with("a", "ab"));
    assert_eq!(strip_prefix("Bearer k", "Bearer "), Some("k".to_string()));
    assert_eq!(strip_prefix("Basic k", "Bearer "), None);
    assert!(contains("x<script>y", "<script>"));
    assert!(!contains("javascript", "javascript:"));
    assert!(contains("abc", ""));
    assert!(str_eq("ab", "ab"));
    assert!(!str_eq("ab", "abc"));
    assert_eq!(concat2("ab", "cd"), "abcd");
}

#[test]
fn replace_is_left_to_right_and_non_overlapping() {
    assert_eq!(replace("t={t} {t}", "{t}", "9"), "t=9 9");
    assert_eq!(replace("aaa", "aa", "b"), "ba");
    assert_eq!(replace("none", "{current_time}", "x"), "none");
}

#[test]
fn split_and_lines_follow_std() {
    assert_eq!(split_char("a,,b", ','), vec!["a", "", "b"]);
    assert_eq!(split_char("", ','), vec![""]);
    assert_eq!(split_char("a,", ','), vec!["a", ""]);
    assert_eq!(lines("a\r\nb\n"), vec!["a", "b"]);
    assert_eq!(lines("a\nb\r"), vec!["a", "b\r"]);
    assert_eq!(lines(""), Vec::<String>::new());
    assert_eq!(lines("a\n\n"), vec!["a", ""]);
    for s in ["a\r\nb\n", "a\nb\r", "", "a\n\n", "x"] {
        let expected: Vec<String> = s.lines().map(|l| l.to_string()).collect();
        assert_eq!(lines(s), expected);
    }
}

#[test]
fn ascii_case_comparison() {
    assert!(eq_ignore_ascii_case("TrUe", "true"));
    assert!(!eq_ignore_ascii_case("truee", "true"));
}

#[test]
fn decimal_text_and_parsing() {
    assert_eq!(decimal_string(0), "0");
    assert_eq!(decimal_string(12345), "12345");
    assert_eq!(decimal_string(u64::MAX), u64::MAX.to_string());
    assert_eq!(parse_unsigned("+42", u64::MAX), Some(42));
    assert_eq!(parse_unsigned("007", u64::MAX), Some(7));
    assert_eq!(parse_unsigned("", u64::MAX), None);
    assert_eq!(parse_unsigned("+", u64::MAX), None);
    assert_eq!(parse_unsigned("-1", u64::MAX), None);
    assert_eq!(parse_unsigned(" 1", u64::MAX), None);
    assert_eq!(parse_unsigned("18446744073709551615", u64::MAX), Some(u64::MAX));
    assert_eq!(parse_unsigned("18446744073709551616", u64::MAX), None);
    assert_eq!(parse_unsigned("4294967295", u32::MAX as u64), Some(4294967295));
    assert_eq!(parse_unsigned("4294967296", u32::MAX as u64), None);
}

#[test]
fn parsing_decimal_text_gives_the_number_back() {
    for n in [0u64, 1, 9, 10, 99, 65535, 4294967295, u64::MAX] {
        assert_eq!(parse_unsigned(&decimal_string(n), u64::MAX), Some(n));
    }
}
