use todo_to_issue::strutil::find_sub;
use todo_to_issue::strutil::split_newlines;
use todo_to_issue::strutil::starts_with_prefix;
use todo_to_issue::strutil::trim;
use todo_to_issue::strutil::u32_to_string;

#[test]
fn find_reports_first_occurrence() {
    assert_eq!(find_sub("hello world", "world"), Some(6));
    assert_eq!(find_sub("aba aba", "aba"), Some(0));
    assert_eq!(find_sub("abc", "zzz"), None);
    assert_eq!(find_sub("", "x"), None);
}

#[test]
fn find_counts_characters_not_bytes() {
    assert_eq!(find_sub("héllo", "llo"), Some(2));
}

#[test]
fn prefix_test_is_exact() {
    assert!(starts_with_prefix("Title: x", "Title:"));
    assert!(!starts_with_prefix("title: x", "Title:"));
    assert!(!starts_with_prefix("Ti", "Title:"));
}

#[test]
fn trim_removes_surrounding_whitespace() {
    assert_eq!(trim("  x  "), "x");
    assert_eq!(trim("\t a b \r\n"), "a b");
    assert_eq!(trim("   "), "");
    assert_eq!(trim(""), "");
    assert_eq!(trim("none"), "none");
}

#[test]
fn trim_knows_unicode_whitespace() {
    assert_eq!(trim("\u{3000}wide\u{a0}"), "wide");
}

#[test]
fn splitting_keeps_empty_segments() {
    assert_eq!(split_newlines("a\nb"), vec!["a".to_string(), "b".to_string()]);
    assert_eq!(split_newlines(""), vec!["".to_string()]);
    assert_eq!(split_newlines("a\n"), vec!["a".to_string(), "".to_string()]);
    assert_eq!(
        split_newlines("\na\n\nb"),
        vec!["".to_string(), "a".to_string(), "".to_string(), "b".to_string()]
    );
}

#[test]
fn decimal_rendering_is_exact() {
    assert_eq!(u32_to_string(0), "0");
    assert_eq!(u32_to_string(7), "7");
    assert_eq!(u32_to_string(1234567890), "1234567890");
    assert_eq!(u32_to_string(u32::MAX), "4294967295");
}
