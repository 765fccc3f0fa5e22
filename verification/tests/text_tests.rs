use mcpo::text::{
    chars_of, concat3, contains, from_chars, join, lines, replace_char, segments, split,
    starts_with, str_eq, strip_prefix, trim, trim_end_char, trim_end_str,
};

#[test]
fn trim_removes_unicode_space() {
    assert_eq!(trim("  \t hello \r\n"), "hello");
    assert_eq!(trim("\u{3000}x\u{a0}"), "x");
    assert_eq!(trim("   "), "");
    assert_eq!(trim("a b"), "a b");
}

#[test]
fn trimming_trailing_chars_and_patterns() {
    assert_eq!(trim_end_char("/api///", '/'), "/api");
    assert_eq!(trim_end_char("///", '/'), "");
    assert_eq!(trim_end_str("/time/docs", "/docs"), "/time");
    assert_eq!(trim_end_str("/docs/docs", "/docs"), "");
    assert_eq!(trim_end_str("/time/docsx", "/docs"), "/time/docsx");
    assert_eq!(trim_end_str("abc", ""), "abc");
}

#[test]
fn prefixes_and_substrings() {
    assert!(starts_with("Bearer x", "Bearer "));
    assert!(!starts_with("Bear", "Bearer "));
    assert_eq!(strip_prefix("data: abc", "data: ").as_deref(), Some("abc"));
    assert_eq!(strip_prefix("event: x", "data: "), None);
    assert!(contains("http://h", "://"));
    assert!(!contains("localhost:8000", "://"));
    assert!(contains("abc", ""));
    assert!(str_eq("é", "é"));
    assert!(!str_eq("a", "ab"));
}

#[test]
fn splitting_and_joining() {
    assert_eq!(split("/a//b", '/'), vec!["", "a", "", "b"]);
    assert_eq!(split("", '/'), vec![""]);
    assert_eq!(segments("/a//b/", '/'), vec!["a", "b"]);
    assert_eq!(join(&["a".to_string(), "b".to_string(), "c".to_string()], "_"), "a_b_c");
    assert_eq!(join(&[], "_"), "");
}

#[test]
fn lines_as_str_lines() {
    for text in ["a\nb", "a\r\nb\r", "\n", "", "x\n\ny\n", "only"] {
        let expected: Vec<String> = text.lines().map(|l| l.to_string()).collect();
        assert_eq!(lines(text), expected);
    }
}

#[test]
fn characters_round_trip() {
    let cs = chars_of("héllo");
    assert_eq!(cs.len(), 5);
    assert_eq!(from_chars(&cs), "héllo");
    assert_eq!(replace_char("get_current_time", '_', ' '), "get current time");
    assert_eq!(concat3("a", "b", "c"), "abc");
}
