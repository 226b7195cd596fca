use agentx::content::{
    extract_filename, extract_text_from_content, get_file_icon, plain_text_of_content,
    tool_call_content_text, utf8_truncate, utf8_truncate_checked, ContentBlock, IconName,
    ResourceInfo, ToolCallContent,
};

#[test]
fn filename_is_the_last_segment_of_the_uri() {
    assert_eq!(extract_filename("file:///home/user/project/main.rs"), "main.rs");
    assert_eq!(extract_filename("main.rs"), "main.rs");
    assert_eq!(extract_filename("dir/"), "");
    assert_eq!(extract_filename(""), "");
}

#[test]
fn every_file_gets_the_file_icon() {
    assert_eq!(get_file_icon(&None), IconName::File);
    assert_eq!(get_file_icon(&Some("image/png".to_string())), IconName::File);
}

#[test]
fn text_of_each_content_kind() {
    let t = ContentBlock::Text { text: "hello".to_string() };
    assert_eq!(extract_text_from_content(&t), "hello");
    let i = ContentBlock::Image { mime_type: "image/png".to_string() };
    assert_eq!(extract_text_from_content(&i), "[Image: image/png]");
    let a = ContentBlock::Audio { mime_type: "audio/wav".to_string() };
    assert_eq!(extract_text_from_content(&a), "[Audio: audio/wav]");
    let l = ContentBlock::ResourceLink {
        name: "a.txt".to_string(),
        uri: "file:///a.txt".to_string(),
        mime_type: None,
    };
    assert_eq!(extract_text_from_content(&l), "[Resource: a.txt]");
    let r = ContentBlock::TextResource {
        uri: "file:///b.txt".to_string(),
        text: "body".to_string(),
        mime_type: None,
    };
    assert_eq!(extract_text_from_content(&r), "[Resource: file:///b.txt]\nbody");
    let b = ContentBlock::BlobResource { uri: "file:///c.bin".to_string(), mime_type: None };
    assert_eq!(extract_text_from_content(&b), "[Binary Resource: file:///c.bin]");
    assert_eq!(extract_text_from_content(&ContentBlock::UnknownResource), "[Unknown Resource]");
    assert_eq!(extract_text_from_content(&ContentBlock::Unknown), "[Unknown Content]");
}

#[test]
fn embedded_text_shows_at_most_two_hundred_bytes() {
    let long = "x".repeat(250);
    let r = ContentBlock::TextResource { uri: "u".to_string(), text: long, mime_type: None };
    let shown = extract_text_from_content(&r);
    assert_eq!(shown, format!("[Resource: u]\n{}", "x".repeat(200)));
}

#[test]
fn plain_text_is_empty_for_other_kinds() {
    assert_eq!(plain_text_of_content(&ContentBlock::Text { text: "t".to_string() }), "t");
    assert_eq!(plain_text_of_content(&ContentBlock::Image { mime_type: "m".to_string() }), "");
}

#[test]
fn utf8_truncation_keeps_whole_characters() {
    assert_eq!(utf8_truncate("héllo", 3), "hé");
    assert_eq!(utf8_truncate("abc", 10), "abc");
    assert_eq!(utf8_truncate_checked("abcdef", 3), (true, "abc".to_string()));
    assert_eq!(utf8_truncate_checked("abc", 3), (false, "abc".to_string()));
}

#[test]
fn resources_of_content_blocks() {
    let link = ContentBlock::ResourceLink {
        name: "n".to_string(),
        uri: "file:///x/y.md".to_string(),
        mime_type: Some("text/markdown".to_string()),
    };
    let r = ResourceInfo::from_content_block(&link).unwrap();
    assert_eq!(r.name, "n");
    assert_eq!(r.text, None);
    let embedded = ContentBlock::TextResource {
        uri: "file:///x/notes.txt".to_string(),
        text: "content".to_string(),
        mime_type: None,
    };
    assert!(ResourceInfo::from_content_block(&embedded).is_none());
    let e = ResourceInfo::from_content_block_with_embedded(&embedded).unwrap();
    assert_eq!(e.name, "notes.txt");
    assert_eq!(e.text.as_deref(), Some("content"));
    let blob = ContentBlock::BlobResource { uri: "a/b/c.png".to_string(), mime_type: None };
    let b = ResourceInfo::from_content_block_with_embedded(&blob).unwrap();
    assert_eq!(b.name, "c.png");
    assert_eq!(b.text, None);
    assert!(ResourceInfo::from_content_block_with_embedded(&ContentBlock::Unknown).is_none());
}

#[test]
fn tool_call_content_summaries() {
    let t = ToolCallContent::Content(ContentBlock::Text { text: "out".to_string() });
    assert_eq!(tool_call_content_text(&t).as_deref(), Some("out"));
    let d = ToolCallContent::Diff {
        path: "src/lib.rs".to_string(),
        old_text: None,
        new_text: "fn main() {}".to_string(),
    };
    assert_eq!(
        tool_call_content_text(&d).as_deref(),
        Some("Modified: \"src/lib.rs\"\n<new file> -> fn main() {}")
    );
    let e = ToolCallContent::Diff {
        path: "a.txt".to_string(),
        old_text: Some("old".to_string()),
        new_text: "new".to_string(),
    };
    assert_eq!(tool_call_content_text(&e).as_deref(), Some("Modified: \"a.txt\"\nold -> new"));
    let term = ToolCallContent::Terminal { terminal_id: "term-1".to_string() };
    assert_eq!(tool_call_content_text(&term).as_deref(), Some("Terminal: term-1"));
    assert_eq!(tool_call_content_text(&ToolCallContent::Other), None);
    let img = ToolCallContent::Content(ContentBlock::Image { mime_type: "m".to_string() });
    assert_eq!(tool_call_content_text(&img), None);
}

#[test]
fn resources_count_their_lines() {
    let r = ResourceInfo {
        uri: "u".to_string(),
        name: "n".to_string(),
        mime_type: None,
        text: Some("a\nb\r\nc\n".to_string()),
    };
    assert_eq!(agentx::content::resource_line_count(&r), 3);
    assert_eq!(agentx::content::resource_lines_label(&r), "3 lines");
    let empty = ResourceInfo { uri: "u".to_string(), name: "n".to_string(), mime_type: None, text: None };
    assert_eq!(agentx::content::resource_lines_label(&empty), "0 lines");
}

#[test]
fn plain_list_shows_diff_paths_as_they_are() {
    let d = ToolCallContent::Diff {
        path: "src/a b.rs".to_string(),
        old_text: Some("x".to_string()),
        new_text: "y".to_string(),
    };
    assert_eq!(
        agentx::content::tool_call_content_line(&d).as_deref(),
        Some("Modified: src/a b.rs\nx -> y")
    );
    let t = ToolCallContent::Terminal { terminal_id: "t".to_string() };
    assert_eq!(agentx::content::tool_call_content_line(&t).as_deref(), Some("Terminal: t"));
}
