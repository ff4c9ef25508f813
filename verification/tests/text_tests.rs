use daily_stoic::text::has_prefix;
use daily_stoic::text::join_range;
use daily_stoic::text::split_lines;
use daily_stoic::text::str_eq;
use daily_stoic::text::trim;

#[test]
fn trim_strips_both_ends() {
    assert_eq!(trim("  hello world \t"), "hello world");
    assert_eq!(trim("hello"), "hello");
    assert_eq!(trim("   "), "");
    assert_eq!(trim(""), "");
    assert_eq!(trim("\r\n text \r\n"), "text");
}

#[test]
fn trim_keeps_interior_whitespace() {
    assert_eq!(trim(" a  b "), "a  b");
}

#[test]
fn split_lines_basic() {
    assert_eq!(split_lines("a\nb\nc"), vec!["a", "b", "c"]);
    assert_eq!(split_lines("a\nb\nc\n"), vec!["a", "b", "c"]);
    assert_eq!(split_lines(""), Vec::<String>::new());
}

#[test]
fn split_lines_strips_carriage_returns_before_newlines() {
    assert_eq!(split_lines("a\r\nb\r\nc"), vec!["a", "b", "c"]);
    assert_eq!(split_lines("a\r"), vec!["a\r"]);
}

#[test]
fn split_lines_keeps_empty_lines() {
    assert_eq!(split_lines("a\n\nb"), vec!["a", "", "b"]);
    assert_eq!(split_lines("\na"), vec!["", "a"]);
    assert_eq!(split_lines("a\n\n"), vec!["a", ""]);
}

#[test]
fn join_range_inserts_single_spaces() {
    let lines: Vec<String> = vec!["one".to_string(), "two".to_string(), "three".to_string()];
    assert_eq!(join_range(&lines, 0, 3, " "), "one two three");
    assert_eq!(join_range(&lines, 1, 2, " "), "two");
    assert_eq!(join_range(&lines, 1, 1, " "), "");
}

#[test]
fn prefix_and_equality_checks() {
    assert!(has_prefix("March 3: WISDOM", "March 3"));
    assert!(!has_prefix("March 3", "March 30"));
    assert!(has_prefix("abc", ""));
    assert!(str_eq("same", "same"));
    assert!(!str_eq("same", "samE"));
    assert!(!str_eq("same", "sam"));
}
