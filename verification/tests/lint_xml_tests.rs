use agentx::lint::{
    char_count, diagnostic_for, lint_diagnostics, lint_document, DiagnosticSeverity, LintLine,
    LintSeverity,
};
use agentx::status::ToolKind;
use agentx::xml::{extract_xml_content, strip_code_fences, xml_content_from_captures};

#[test]
fn xml_elements_are_extracted_for_command_output() {
    assert_eq!(
        extract_xml_content("<tool_use_error>File not found</tool_use_error>", ToolKind::Execute),
        "File not found"
    );
    assert_eq!(extract_xml_content("<a>x</a> then <b>y</b>", ToolKind::Read), "x\ny");
    assert_eq!(extract_xml_content("```\nplain output\n```", ToolKind::Other), "plain output");
    assert_eq!(extract_xml_content("```<a>x</a>```", ToolKind::Edit), "<a>x</a>");
}

#[test]
fn captures_are_joined_with_newlines() {
    let caps = Some(vec![Some(String::new()), Some("a".to_string()), None, Some(String::new())]);
    assert_eq!(xml_content_from_captures("raw", caps), "a\n");
    assert_eq!(xml_content_from_captures(" ```raw``` ", Some(vec![])), "```raw```");
    assert_eq!(xml_content_from_captures("```raw```", Some(vec![])), "raw");
    assert_eq!(xml_content_from_captures("```x```", None), "x");
}

#[test]
fn code_fences_are_stripped_on_both_sides() {
    assert_eq!(strip_code_fences("``````text``````"), "text");
    assert_eq!(strip_code_fences("  plain  "), "plain");
}

#[test]
fn findings_become_diagnostics() {
    let finding = LintLine {
        line: 3,
        col: 5,
        new: "Hello 世界".to_string(),
        old: "Hello世界".to_string(),
        severity: LintSeverity::Error,
    };
    let d = diagnostic_for(&finding);
    assert_eq!((d.start_line, d.start_col, d.end_line, d.end_col), (2, 4, 2, 11));
    assert_eq!(d.severity, DiagnosticSeverity::Warning);
    assert_eq!(d.message, "AutoCorrect: Hello 世界");
    assert_eq!(d.new_text, "Hello 世界");
    assert_eq!(d.action_title, "Change to 'Hello 世界'");
    let edge = LintLine {
        line: 0,
        col: 0,
        new: String::new(),
        old: "ab".to_string(),
        severity: LintSeverity::Warning,
    };
    let e = diagnostic_for(&edge);
    assert_eq!((e.start_line, e.start_col, e.end_col), (0, 0, 2));
    assert_eq!(e.severity, DiagnosticSeverity::Hint);
    let pass = LintLine { line: 1, col: 1, new: "x".to_string(), old: "x".to_string(), severity: LintSeverity::Pass };
    let all = lint_diagnostics(&vec![finding, pass]);
    assert_eq!(all.len(), 2);
    assert_eq!(all[1].severity, DiagnosticSeverity::Info);
    assert_eq!(char_count("héllo"), 5);
}

#[test]
fn autocorrect_findings_reach_the_editor() {
    let found = lint_document("这是test文本", "markdown");
    assert_eq!(found.len(), 1);
    let d = &found[0];
    assert_eq!((d.start_line, d.start_col, d.end_line, d.end_col), (0, 0, 0, 8));
    assert_eq!(d.message, "AutoCorrect: 这是 test 文本");
    assert_eq!(d.severity, DiagnosticSeverity::Warning);
    assert!(lint_document("这是test文本", "no-such-language").is_empty());
}
