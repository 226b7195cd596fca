use agentx::index::UpdateStateIndex;

#[test]
fn test_index_tool_call_operations() {
    let mut index = UpdateStateIndex::new();

    // Register tool calls
    index.register_tool_call("tc-1".to_string(), 0);
    index.register_tool_call("tc-2".to_string(), 5);

    // Lookups
    assert_eq!(index.find_tool_call("tc-1"), Some(0));
    assert_eq!(index.find_tool_call("tc-2"), Some(5));
    assert_eq!(index.find_tool_call("tc-3"), None);

    // Update position
    index.update_tool_call_position("tc-1", 10);
    assert_eq!(index.find_tool_call("tc-1"), Some(10));

    // Remove
    index.remove_tool_call("tc-1");
    assert_eq!(index.find_tool_call("tc-1"), None);
}

#[test]
fn test_index_streaming_state() {
    let mut index = UpdateStateIndex::new();

    // Track message
    index.set_last_message(5);
    assert_eq!(index.last_message(), Some(5));

    // Track thought
    index.set_last_thought(8);
    assert_eq!(index.last_thought(), Some(8));

    // Clear
    index.clear_streaming_state();
    assert_eq!(index.last_message(), None);
    assert_eq!(index.last_thought(), None);
}

#[test]
fn new_index_tracks_nothing() {
    let index = UpdateStateIndex::new();
    assert_eq!(index.last_message(), None);
    assert_eq!(index.last_thought(), None);
    assert_eq!(index.last_user_message(), None);
    assert_eq!(index.find_tool_call("anything"), None);
}

#[test]
fn user_message_state_is_separate_from_streaming_state() {
    let mut index = UpdateStateIndex::new();
    index.set_last_user_message(3);
    index.set_last_message(4);
    index.clear_streaming_state();
    assert_eq!(index.last_user_message(), Some(3));
    index.clear_user_message_state();
    assert_eq!(index.last_user_message(), None);
}

#[test]
fn registering_again_moves_a_tool_call_and_keeps_the_others() {
    let mut index = UpdateStateIndex::new();
    index.register_tool_call("a".to_string(), 1);
    index.register_tool_call("b".to_string(), 2);
    index.register_tool_call("a".to_string(), 7);
    assert_eq!(index.find_tool_call("a"), Some(7));
    assert_eq!(index.find_tool_call("b"), Some(2));
    index.remove_tool_call("a");
    assert_eq!(index.find_tool_call("b"), Some(2));
    index.remove_tool_call("missing");
    assert_eq!(index.find_tool_call("b"), Some(2));
}

#[test]
fn clear_forgets_everything() {
    let mut index = UpdateStateIndex::new();
    index.register_tool_call("a".to_string(), 1);
    index.set_last_message(1);
    index.set_last_thought(2);
    index.set_last_user_message(3);
    index.clear();
    assert_eq!(index.find_tool_call("a"), None);
    assert_eq!(index.last_message(), None);
    assert_eq!(index.last_thought(), None);
    assert_eq!(index.last_user_message(), None);
}

#[test]
fn default_index_is_empty() {
    let index = UpdateStateIndex::default();
    assert_eq!(index.find_tool_call("a"), None);
    assert_eq!(index.last_message(), None);
}
