use agentx::content::ContentBlock;
use agentx::selection::{
    code_selection, display_range, go_to_line_position, parse_code_selection_text,
    parse_usize, selection_label,
};

#[test]
fn chips_show_the_file_name_of_the_path() {
    let c = parse_code_selection_text("```\n// File: /home/user/ (Line 1)\nx\n```").unwrap();
    assert_eq!(c.file_path, "user");
    let root = parse_code_selection_text("```\n// File: / (Line 1)\nx\n```").unwrap();
    assert_eq!(root.file_path, "/");
    let up = parse_code_selection_text("```\n// File: a/.. (Line 2)\nx\n```").unwrap();
    assert_eq!(up.file_path, "a/..");
}

#[test]
fn code_selection_chips() {
    let chip = parse_code_selection_text("```\n// File: /src/panels/main.rs (Lines 10-20)\nfn main() {}\n```")
        .unwrap();
    assert_eq!(chip.file_path, "main.rs");
    assert_eq!(chip.line_range, "10~20");
    let one = parse_code_selection_text("  ```\n// File: lib.rs (Line 7)\nx\n```  ").unwrap();
    assert_eq!(one.file_path, "lib.rs");
    assert_eq!(one.line_range, "7");
    assert!(parse_code_selection_text("plain text").is_none());
    assert!(parse_code_selection_text("```\n// File: no range\nx\n```").is_none());
    assert!(parse_code_selection_text("```\n// Other: x (Line 1)\n```").is_none());
}

#[test]
fn ranges_as_chips_show_them() {
    assert_eq!(display_range("Line 3"), "3");
    assert_eq!(display_range("Lines 1-9"), "1~9");
    assert_eq!(display_range("whole file"), "whole file");
}

#[test]
fn numbers_in_queries() {
    assert_eq!(parse_usize("42"), Some(42));
    assert_eq!(parse_usize("+7"), Some(7));
    assert_eq!(parse_usize(""), None);
    assert_eq!(parse_usize("4a"), None);
    assert_eq!(parse_usize("-1"), None);
    assert_eq!(parse_usize("99999999999999999999999"), None);
}

#[test]
fn go_to_line_queries() {
    assert_eq!(go_to_line_position("10"), Some((9, 0)));
    assert_eq!(go_to_line_position(" 10 : 5 "), Some((9, 4)));
    assert_eq!(go_to_line_position("3:x"), Some((2, 0)));
    assert_eq!(go_to_line_position("0"), Some((0, 0)));
    assert_eq!(go_to_line_position("abc"), None);
    assert_eq!(go_to_line_position(""), None);
}

#[test]
fn selections_sent_to_the_chat_count_from_one() {
    let s = code_selection(Some("/a/b.rs".to_string()), (0, 4), (2, 0), "text".to_string());
    assert_eq!(s.file_path, "/a/b.rs");
    assert_eq!((s.start_line, s.start_column, s.end_line, s.end_column), (1, 5, 3, 1));
    assert_eq!(s.content, "text");
    let u = code_selection(None, (0, 0), (0, 0), String::new());
    assert_eq!(u.file_path, "untitled");
}

#[test]
fn selection_button_label() {
    assert_eq!(selection_label((0, 0), (1, 9), 25), "Sel: 1:1 - 2:10 (25 chars)");
}

#[test]
fn numbers_read_back_as_written() {
    for n in [0usize, 7, 10, 99, 12345, usize::MAX] {
        assert_eq!(parse_usize(&agentx::text::decimal_string(n)), Some(n));
    }
}

#[test]
fn user_message_contents_split_into_chips_and_the_rest() {
    let contents = vec![
        ContentBlock::Text { text: "please look".to_string() },
        ContentBlock::Text { text: "```\n// File: /a/b.rs (Lines 1-2)\nx\n```".to_string() },
        ContentBlock::Image { mime_type: "image/png".to_string() },
        ContentBlock::Text { text: "```\n// File: c.rs (Line 9)\ny\n```".to_string() },
    ];
    let (chips, others) = agentx::selection::split_code_selections(contents);
    let shown: Vec<(&str, &str)> = chips.iter().map(|c| (c.file_path.as_str(), c.line_range.as_str())).collect();
    assert_eq!(shown, vec![("b.rs", "1~2"), ("c.rs", "9")]);
    assert_eq!(others.len(), 2);
    assert!(matches!(&others[0], ContentBlock::Text { text } if text == "please look"));
    assert!(matches!(&others[1], ContentBlock::Image { .. }));
}
