use agentx::content::ContentBlock;
use agentx::index::UpdateStateIndex;
use agentx::status::{ToolCallStatus, ToolKind};
use agentx::timeline::{
    add_update_to_list, agent_message_from_stored, agent_message_id, commands_info,
    complete_last_item, create_agent_message_data, create_user_message, find_tool_call_item,
    mode_info, session_update_type_name, tool_call_from_stored, RenderedItem, SessionUpdate,
    ToolCall, ToolCallUpdateFields, UpdateProcessor,
};

fn text(s: &str) -> ContentBlock {
    ContentBlock::Text { text: s.to_string() }
}

fn call(id: &str, title: &str) -> ToolCall {
    ToolCall {
        tool_call_id: id.to_string(),
        title: title.to_string(),
        kind: ToolKind::Read,
        status: ToolCallStatus::Pending,
        content_count: 0,
    }
}

fn no_fields() -> ToolCallUpdateFields {
    ToolCallUpdateFields { title: None, kind: None, status: None, content_count: None }
}

fn processor(next_index: usize) -> UpdateProcessor {
    UpdateProcessor::new(Some("s-1".to_string()), Some("Aria".to_string()), None, next_index)
}

fn chunk_texts(chunks: &[ContentBlock]) -> Vec<String> {
    chunks
        .iter()
        .map(|c| match c {
            ContentBlock::Text { text } => text.clone(),
            _ => String::from("?"),
        })
        .collect()
}

#[test]
fn agent_message_chunks_merge_into_one_item() {
    let mut items = Vec::new();
    let mut index = UpdateStateIndex::new();
    processor(3).process_update(&mut items, &mut index, SessionUpdate::AgentMessageChunk(text("Hel")));
    processor(4).process_update(&mut items, &mut index, SessionUpdate::AgentMessageChunk(text("lo")));
    assert_eq!(items.len(), 1);
    match &items[0] {
        RenderedItem::AgentMessage { id, data } => {
            assert_eq!(id, "agent-msg-3");
            assert_eq!(data.session_id, "s-1");
            assert_eq!(data.agent_name.as_deref(), Some("Aria"));
            assert!(!data.is_complete);
            assert_eq!(chunk_texts(&data.chunks), vec!["Hel".to_string(), "lo".to_string()]);
        }
        _ => panic!("expected an agent message"),
    }
    assert_eq!(index.last_message(), Some(0));
}

#[test]
fn agent_message_without_session_uses_default_session() {
    let mut items = Vec::new();
    let mut index = UpdateStateIndex::new();
    let p = UpdateProcessor::new(None, None, Some("ignored".to_string()), 0);
    p.process_update(&mut items, &mut index, SessionUpdate::AgentMessageChunk(text("x")));
    match &items[0] {
        RenderedItem::AgentMessage { data, .. } => {
            assert_eq!(data.session_id, "default-session");
            assert_eq!(data.agent_name, None);
        }
        _ => panic!("expected an agent message"),
    }
}

#[test]
fn session_agent_name_is_used_when_no_name_is_given() {
    let mut items = Vec::new();
    let mut index = UpdateStateIndex::new();
    let p = UpdateProcessor::new(Some("s".to_string()), None, Some("Bolt".to_string()), 0);
    p.process_update(&mut items, &mut index, SessionUpdate::AgentMessageChunk(text("x")));
    match &items[0] {
        RenderedItem::AgentMessage { data, .. } => assert_eq!(data.agent_name.as_deref(), Some("Bolt")),
        _ => panic!("expected an agent message"),
    }
}

#[test]
fn thought_chunks_merge_and_a_message_after_them_is_new() {
    let mut items = Vec::new();
    let mut index = UpdateStateIndex::new();
    let p = processor(0);
    p.process_update(&mut items, &mut index, SessionUpdate::AgentThoughtChunk(text("think ")));
    p.process_update(&mut items, &mut index, SessionUpdate::AgentThoughtChunk(text("more")));
    assert_eq!(items.len(), 1);
    match &items[0] {
        RenderedItem::AgentThought { text, open } => {
            assert_eq!(text, "think more");
            assert!(!open);
        }
        _ => panic!("expected a thought"),
    }
    p.process_update(&mut items, &mut index, SessionUpdate::AgentMessageChunk(text("answer")));
    assert_eq!(items.len(), 2);
    assert!(matches!(items[1], RenderedItem::AgentMessage { .. }));
}

#[test]
fn user_chunks_merge_and_complete_the_streaming_message() {
    let mut items = Vec::new();
    let mut index = UpdateStateIndex::new();
    let p = processor(0);
    p.process_update(&mut items, &mut index, SessionUpdate::AgentMessageChunk(text("hi")));
    p.process_update(&mut items, &mut index, SessionUpdate::UserMessageChunk(text("a")));
    p.process_update(&mut items, &mut index, SessionUpdate::UserMessageChunk(text("b")));
    assert_eq!(items.len(), 2);
    match &items[0] {
        RenderedItem::AgentMessage { data, .. } => assert!(data.is_complete),
        _ => panic!("expected an agent message"),
    }
    match &items[1] {
        RenderedItem::UserMessage { contents, resources } => {
            assert_eq!(chunk_texts(contents), vec!["a".to_string(), "b".to_string()]);
            assert!(resources.is_empty());
        }
        _ => panic!("expected a user message"),
    }
    assert_eq!(index.last_user_message(), Some(1));
    assert_eq!(index.last_message(), None);
}

#[test]
fn user_message_with_a_resource_link_records_it() {
    let item = create_user_message(ContentBlock::ResourceLink {
        name: "main.rs".to_string(),
        uri: "file:///src/main.rs".to_string(),
        mime_type: Some("text/x-rust".to_string()),
    });
    match item {
        RenderedItem::UserMessage { contents, resources } => {
            assert_eq!(contents.len(), 1);
            assert_eq!(resources.len(), 1);
            assert_eq!(resources[0].uri, "file:///src/main.rs");
            assert_eq!(resources[0].name, "main.rs");
            assert_eq!(resources[0].mime_type.as_deref(), Some("text/x-rust"));
        }
        _ => panic!("expected a user message"),
    }
}

#[test]
fn tool_calls_are_registered_and_updated_in_place() {
    let mut items = Vec::new();
    let mut index = UpdateStateIndex::new();
    let p = processor(0);
    p.process_update(&mut items, &mut index, SessionUpdate::AgentMessageChunk(text("let me read")));
    p.process_update(&mut items, &mut index, SessionUpdate::ToolCall(call("tc-1", "Read file")));
    assert_eq!(items.len(), 2);
    assert_eq!(index.find_tool_call("tc-1"), Some(1));
    match &items[0] {
        RenderedItem::AgentMessage { data, .. } => assert!(data.is_complete),
        _ => panic!("expected an agent message"),
    }
    let fields = ToolCallUpdateFields {
        status: Some(ToolCallStatus::Completed),
        content_count: Some(2),
        ..no_fields()
    };
    p.process_update(
        &mut items,
        &mut index,
        SessionUpdate::ToolCallUpdate { tool_call_id: "tc-1".to_string(), fields },
    );
    assert_eq!(items.len(), 2);
    match &items[1] {
        RenderedItem::ToolCall { call, open } => {
            assert_eq!(call.title, "Read file");
            assert_eq!(call.status, ToolCallStatus::Completed);
            assert_eq!(call.kind, ToolKind::Read);
            assert_eq!(call.content_count, 2);
            assert!(!open);
        }
        _ => panic!("expected a tool call"),
    }
}

#[test]
fn a_repeated_tool_call_replaces_the_indexed_one() {
    let mut items = Vec::new();
    let mut index = UpdateStateIndex::new();
    let p = processor(0);
    p.process_update(&mut items, &mut index, SessionUpdate::ToolCall(call("tc-1", "first")));
    p.process_update(&mut items, &mut index, SessionUpdate::ToolCall(call("tc-1", "second")));
    assert_eq!(items.len(), 1);
    match &items[0] {
        RenderedItem::ToolCall { call, .. } => assert_eq!(call.title, "second"),
        _ => panic!("expected a tool call"),
    }
}

#[test]
fn update_of_an_unknown_tool_call_creates_it_only_with_a_title() {
    let mut items = Vec::new();
    let mut index = UpdateStateIndex::new();
    let p = processor(0);
    p.process_update(
        &mut items,
        &mut index,
        SessionUpdate::ToolCallUpdate { tool_call_id: "x".to_string(), fields: no_fields() },
    );
    assert!(items.is_empty());
    assert_eq!(index.find_tool_call("x"), None);
    let fields = ToolCallUpdateFields { title: Some("Run".to_string()), ..no_fields() };
    p.process_update(
        &mut items,
        &mut index,
        SessionUpdate::ToolCallUpdate { tool_call_id: "x".to_string(), fields },
    );
    assert_eq!(items.len(), 1);
    assert_eq!(index.find_tool_call("x"), Some(0));
    match &items[0] {
        RenderedItem::ToolCall { call, .. } => {
            assert_eq!(call.title, "Run");
            assert_eq!(call.kind, ToolKind::Other);
            assert_eq!(call.status, ToolCallStatus::Pending);
            assert_eq!(call.content_count, 0);
        }
        _ => panic!("expected a tool call"),
    }
}

#[test]
fn plan_commands_and_mode_updates_close_the_stream() {
    let mut items = Vec::new();
    let mut index = UpdateStateIndex::new();
    let p = processor(0);
    p.process_update(&mut items, &mut index, SessionUpdate::AgentMessageChunk(text("x")));
    p.process_update(&mut items, &mut index, SessionUpdate::Plan { entry_count: 3 });
    p.process_update(&mut items, &mut index, SessionUpdate::AvailableCommandsUpdate { command_count: 12 });
    p.process_update(
        &mut items,
        &mut index,
        SessionUpdate::CurrentModeUpdate { mode_id: "code".to_string() },
    );
    p.process_update(&mut items, &mut index, SessionUpdate::Other);
    assert_eq!(items.len(), 4);
    match &items[0] {
        RenderedItem::AgentMessage { data, .. } => assert!(data.is_complete),
        _ => panic!("expected an agent message"),
    }
    assert!(matches!(items[1], RenderedItem::Plan { entry_count: 3 }));
    match &items[2] {
        RenderedItem::InfoUpdate { text } => assert_eq!(text, "📋 Available Commands: 12 commands"),
        _ => panic!("expected an info line"),
    }
    match &items[3] {
        RenderedItem::InfoUpdate { text } => assert_eq!(text, "🔄 Mode: code"),
        _ => panic!("expected an info line"),
    }
    assert_eq!(index.last_message(), None);
    assert_eq!(index.last_thought(), None);
}

#[test]
fn info_texts() {
    assert_eq!(commands_info(0), "📋 Available Commands: 0 commands");
    assert_eq!(commands_info(105), "📋 Available Commands: 105 commands");
    assert_eq!(mode_info("architect"), "🔄 Mode: architect");
    assert_eq!(agent_message_id(42), "agent-msg-42");
}

#[test]
fn plain_list_merges_trailing_chunks_of_the_same_kind() {
    let mut items = Vec::new();
    add_update_to_list(&mut items, SessionUpdate::AgentMessageChunk(text("a")), 0);
    add_update_to_list(&mut items, SessionUpdate::AgentMessageChunk(text("b")), 1);
    assert_eq!(items.len(), 1);
    match &items[0] {
        RenderedItem::AgentMessage { id, data } => {
            assert_eq!(id, "agent-msg-0");
            assert_eq!(chunk_texts(&data.chunks), vec!["a".to_string(), "b".to_string()]);
        }
        _ => panic!("expected an agent message"),
    }
    add_update_to_list(&mut items, SessionUpdate::AgentThoughtChunk(text("t1")), 2);
    add_update_to_list(&mut items, SessionUpdate::AgentThoughtChunk(text("t2")), 3);
    assert_eq!(items.len(), 2);
    match &items[1] {
        RenderedItem::AgentThought { text, .. } => assert_eq!(text, "t1t2"),
        _ => panic!("expected a thought"),
    }
}

#[test]
fn plain_list_applies_tool_call_updates_to_the_first_matching_call() {
    let mut items = Vec::new();
    add_update_to_list(&mut items, SessionUpdate::ToolCall(call("t", "one")), 0);
    add_update_to_list(&mut items, SessionUpdate::ToolCall(call("t", "two")), 1);
    assert_eq!(items.len(), 2);
    assert_eq!(find_tool_call_item(&items, "t"), Some(0));
    assert_eq!(find_tool_call_item(&items, "u"), None);
    let fields = ToolCallUpdateFields { title: Some("renamed".to_string()), ..no_fields() };
    add_update_to_list(
        &mut items,
        SessionUpdate::ToolCallUpdate { tool_call_id: "t".to_string(), fields },
        2,
    );
    match &items[0] {
        RenderedItem::ToolCall { call, .. } => assert_eq!(call.title, "renamed"),
        _ => panic!("expected a tool call"),
    }
    match &items[1] {
        RenderedItem::ToolCall { call, .. } => assert_eq!(call.title, "two"),
        _ => panic!("expected a tool call"),
    }
}

#[test]
fn completing_the_last_item_touches_only_agent_messages() {
    let mut items = vec![RenderedItem::AgentMessage {
        id: "m".to_string(),
        data: create_agent_message_data(text("x"), None, Some("A")),
    }];
    complete_last_item(&mut items);
    match &items[0] {
        RenderedItem::AgentMessage { data, .. } => {
            assert!(data.is_complete);
            assert_eq!(data.session_id, "default-session");
            assert_eq!(data.agent_name.as_deref(), Some("A"));
        }
        _ => panic!("expected an agent message"),
    }
    let mut empty: Vec<RenderedItem> = Vec::new();
    complete_last_item(&mut empty);
    assert!(empty.is_empty());
}

#[test]
fn update_kind_names() {
    assert_eq!(session_update_type_name(&SessionUpdate::AgentMessageChunk(text("x"))), "AgentMessageChunk");
    assert_eq!(session_update_type_name(&SessionUpdate::Plan { entry_count: 0 }), "Plan");
    assert_eq!(session_update_type_name(&SessionUpdate::Other), "Unknown/Future SessionUpdate Type");
}

#[test]
fn stored_tool_calls_parse_kind_and_status_without_regard_to_case() {
    let c = tool_call_from_stored(
        "id".to_string(),
        "title".to_string(),
        &Some("EXECUTE".to_string()),
        &Some("In_Progress".to_string()),
        4,
    );
    assert_eq!(c.kind, ToolKind::Execute);
    assert_eq!(c.status, ToolCallStatus::InProgress);
    assert_eq!(c.content_count, 4);
    let d = tool_call_from_stored("id".to_string(), "t".to_string(), &None, &None, 0);
    assert_eq!(d.kind, ToolKind::Other);
    assert_eq!(d.status, ToolCallStatus::Pending);
}

#[test]
fn stored_agent_messages_keep_their_meta() {
    let m = agent_message_from_stored("s".to_string(), Some((Some("A".to_string()), true)), vec![text("x")]);
    assert!(m.is_complete);
    assert_eq!(m.agent_name.as_deref(), Some("A"));
    let n = agent_message_from_stored("s".to_string(), None, vec![]);
    assert!(!n.is_complete);
    assert_eq!(n.agent_name, None);
}

#[test]
fn rebuild_reads_positions_from_the_items() {
    let mut items = Vec::new();
    add_update_to_list(&mut items, SessionUpdate::ToolCall(call("a", "one")), 0);
    add_update_to_list(&mut items, SessionUpdate::AgentMessageChunk(text("m")), 1);
    add_update_to_list(&mut items, SessionUpdate::AgentThoughtChunk(text("t")), 2);
    add_update_to_list(&mut items, SessionUpdate::ToolCall(call("b", "two")), 3);
    let mut index = UpdateStateIndex::new();
    index.set_last_user_message(9);
    index.register_tool_call("stale".to_string(), 5);
    index.rebuild(&items);
    assert_eq!(index.find_tool_call("a"), Some(0));
    assert_eq!(index.find_tool_call("b"), Some(3));
    assert_eq!(index.find_tool_call("stale"), None);
    assert_eq!(index.last_message(), Some(1));
    assert_eq!(index.last_thought(), Some(2));
    assert_eq!(index.last_user_message(), None);
}

#[test]
fn plain_list_opens_a_finished_tool_call_with_content() {
    let mut items = Vec::new();
    add_update_to_list(&mut items, SessionUpdate::ToolCall(call("t", "one")), 0);
    let fields = ToolCallUpdateFields {
        status: Some(ToolCallStatus::Completed),
        content_count: Some(1),
        ..no_fields()
    };
    add_update_to_list(
        &mut items,
        SessionUpdate::ToolCallUpdate { tool_call_id: "t".to_string(), fields },
        1,
    );
    match &items[0] {
        RenderedItem::ToolCall { call, open } => {
            assert!(*open);
            assert_eq!(call.status, ToolCallStatus::Completed);
        }
        _ => panic!("expected a tool call"),
    }
}

#[test]
fn a_batch_of_updates_is_processed_in_order() {
    let mut items = Vec::new();
    let mut index = UpdateStateIndex::new();
    processor(0).process_updates(
        &mut items,
        &mut index,
        vec![
            SessionUpdate::UserMessageChunk(text("question")),
            SessionUpdate::AgentThoughtChunk(text("hmm")),
            SessionUpdate::AgentMessageChunk(text("answer ")),
            SessionUpdate::AgentMessageChunk(text("done")),
            SessionUpdate::ToolCall(call("t1", "Read")),
        ],
    );
    assert_eq!(items.len(), 4);
    assert!(matches!(items[0], RenderedItem::UserMessage { .. }));
    assert!(matches!(items[1], RenderedItem::AgentThought { .. }));
    match &items[2] {
        RenderedItem::AgentMessage { data, .. } => {
            assert_eq!(chunk_texts(&data.chunks), vec!["answer ".to_string(), "done".to_string()]);
            assert!(data.is_complete);
        }
        _ => panic!("expected an agent message"),
    }
    assert_eq!(index.find_tool_call("t1"), Some(3));
}

#[test]
fn a_plain_conversation_numbers_its_updates() {
    let mut conversation = agentx::timeline::PlainConversation::new();
    conversation.receive_update(SessionUpdate::AgentThoughtChunk(text("t")));
    conversation.receive_updates(vec![
        SessionUpdate::AgentMessageChunk(text("a")),
        SessionUpdate::AgentMessageChunk(text("b")),
        SessionUpdate::Plan { entry_count: 1 },
    ]);
    assert_eq!(conversation.next_index, 4);
    assert_eq!(conversation.items.len(), 3);
    match &conversation.items[1] {
        RenderedItem::AgentMessage { id, data } => {
            assert_eq!(id, "agent-msg-1");
            assert_eq!(chunk_texts(&data.chunks), vec!["a".to_string(), "b".to_string()]);
            assert!(data.is_complete);
        }
        _ => panic!("expected an agent message"),
    }
}

#[test]
fn saved_user_messages_list_linked_and_embedded_resources() {
    let item = agentx::timeline::user_message_from_stored(vec![
        text("see these"),
        ContentBlock::ResourceLink { name: "design".to_string(), uri: "file:///design.md".to_string(), mime_type: None },
        ContentBlock::TextResource { uri: "file:///x/notes.txt".to_string(), text: "n".to_string(), mime_type: None },
        ContentBlock::Image { mime_type: "image/png".to_string() },
    ]);
    match item {
        RenderedItem::UserMessage { contents, resources } => {
            assert_eq!(contents.len(), 4);
            let names: Vec<&str> = resources.iter().map(|r| r.name.as_str()).collect();
            assert_eq!(names, vec!["design", "notes.txt"]);
            assert_eq!(resources[1].text.as_deref(), Some("n"));
        }
        _ => panic!("expected a user message"),
    }
}

#[test]
fn plain_list_user_chunk_completes_the_agent_message_before_it() {
    let mut items = Vec::new();
    add_update_to_list(&mut items, SessionUpdate::AgentMessageChunk(text("answer")), 0);
    add_update_to_list(&mut items, SessionUpdate::UserMessageChunk(text("next question")), 1);
    assert_eq!(items.len(), 2);
    match &items[0] {
        RenderedItem::AgentMessage { data, .. } => assert!(data.is_complete),
        _ => panic!("expected an agent message"),
    }
    match &items[1] {
        RenderedItem::UserMessage { contents, .. } => {
            assert_eq!(chunk_texts(contents), vec!["next question".to_string()])
        }
        _ => panic!("expected a user message"),
    }
}
