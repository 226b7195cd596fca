use agentx::text::{
    concat3, contains, decimal_string, ends_with, first_line, lines, remove_all_exec,
    replace_char, split_char, split_once, split_whitespace, starts_with, str_eq, strip_prefix,
    trim, trim_end_matches, trim_start_matches,
};

#[test]
fn trimming_uses_unicode_whitespace() {
    assert_eq!(trim("  a b \t\n"), "a b");
    assert_eq!(trim("\u{3000}x\u{a0}"), "x");
    assert_eq!(trim(""), "");
    assert_eq!(trim_start_matches("ababc", "ab"), "c");
    assert_eq!(trim_end_matches("c\"\"", "\""), "c");
}

#[test]
fn splitting() {
    assert_eq!(split_whitespace("  a  b\tc\n"), vec!["a", "b", "c"]);
    assert!(split_whitespace("   ").is_empty());
    assert_eq!(lines("a\r\nb\n\nc"), vec!["a", "b", "", "c"]);
    assert_eq!(lines("a\n"), vec!["a"]);
    assert!(lines("").is_empty());
    assert_eq!(first_line("x\ny").as_deref(), Some("x"));
    assert_eq!(first_line(""), None);
    assert_eq!(split_once("k=v=w", '='), Some(("k".to_string(), "v=w".to_string())));
    assert_eq!(split_once("kv", '='), None);
    assert_eq!(split_char("a:b::c", ':'), vec!["a", "b", "", "c"]);
    assert_eq!(split_char("", ':'), vec![""]);
}

#[test]
fn searching_and_replacing() {
    assert!(starts_with("hello", "he"));
    assert!(!starts_with("he", "hello"));
    assert!(ends_with("hello", "llo"));
    assert!(contains("hello", "ell"));
    assert!(contains("hello", ""));
    assert!(!contains("hello", "xyz"));
    assert_eq!(strip_prefix("Line 5", "Line ").as_deref(), Some("5"));
    assert_eq!(strip_prefix("Lines", "Line 5"), None);
    assert_eq!(replace_char("1-2-3", '-', '~'), "1~2~3");
    assert_eq!(remove_all_exec("Version 10 Version", "Version "), "10 Version");
    assert!(str_eq("a", "a"));
    assert!(!str_eq("a", "b"));
}

#[test]
fn building_text() {
    assert_eq!(concat3("a", "b", "c"), "abc");
    assert_eq!(decimal_string(0), "0");
    assert_eq!(decimal_string(1234567890), "1234567890");
}
