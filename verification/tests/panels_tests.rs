use agentx::dock::{is_visible, klass_of, last_piece, normalize_path, panel_state, StoryPanel};
use agentx::session_view::{
    agent_header, agents_with_sessions, can_close_session, enabled_configs, row_button_id,
    session_subtitle, session_title, short_session_id, AgentSessionInfo, McpServerEntry,
};
use agentx::status::SessionStatus;
use agentx::subscription::{
    passes_session_filter, subscribe_step, SubscribeStep, MESSAGE_SERVICE_MAX_RETRIES,
    MESSAGE_SERVICE_RETRY_DELAY_MS,
};
use agentx::update_check::{
    begin_update_check, status_after_check, update_status_line, UpdateCheckResult, UpdateIcon,
    UpdateInfo, UpdateStatus,
};

#[test]
fn panel_classes_are_the_last_path_segment() {
    assert_eq!(klass_of("agentx::panels::conversation::ConversationPanel"), "ConversationPanel");
    assert_eq!(klass_of("Plain"), "Plain");
    assert_eq!(klass_of("a::"), "");
    assert_eq!(last_piece("a:::b", "::"), ":b");
    assert_eq!(last_piece("x--y--z", "--"), "z");
}

#[test]
fn windows_paths_lose_their_extended_prefix() {
    assert_eq!(normalize_path(r"\\?\C:\work", true), r"C:\work");
    assert_eq!(normalize_path(r"\\?\C:\work", false), r"\\?\C:\work");
    assert_eq!(normalize_path("/home/me", true), "/home/me");
}

#[test]
fn saved_panel_state_reads_the_view_of_its_class() {
    let conversation = Some(StoryPanel::Conversation {
        session_id: Some("s1".to_string()),
        workspace_id: Some("w1".to_string()),
        workspace_name: Some("Work".to_string()),
        working_directory: Some(r"\\?\D:\p".to_string()),
    });
    let s = panel_state("ConversationPanel", &conversation, true);
    assert_eq!(s.story_klass, "ConversationPanel");
    assert_eq!(s.session_id.as_deref(), Some("s1"));
    assert_eq!(s.workspace_name.as_deref(), Some("Work"));
    assert_eq!(s.working_directory.as_deref(), Some(r"\\?\D:\p"));

    let mismatch = panel_state("WelcomePanel", &conversation, true);
    assert_eq!(mismatch.story_klass, "WelcomePanel");
    assert_eq!(mismatch.session_id, None);
    assert_eq!(mismatch.workspace_id, None);

    let editor = Some(StoryPanel::CodeEditor {
        workspace_id: None,
        workspace_name: Some("W".to_string()),
        working_directory: r"\\?\C:\src".to_string(),
    });
    let e = panel_state("CodeEditorPanel", &editor, true);
    assert_eq!(e.working_directory.as_deref(), Some(r"C:\src"));
    assert_eq!(e.session_id, None);

    let terminal = Some(StoryPanel::Terminal {
        workspace_id: Some("w".to_string()),
        workspace_name: None,
        working_directory: None,
    });
    let t = panel_state("TerminalPanel", &terminal, false);
    assert_eq!(t.workspace_id.as_deref(), Some("w"));
    assert_eq!(t.working_directory, None);

    let none = panel_state("SettingsPanel", &None, false);
    assert_eq!(none.story_klass, "SettingsPanel");
    assert_eq!(none.working_directory, None);
}

#[test]
fn hidden_panels_are_not_visible() {
    let hidden = vec!["Terminal".to_string(), "Tasks".to_string()];
    assert!(!is_visible(&hidden, "Tasks"));
    assert!(is_visible(&hidden, "Conversation"));
    assert!(is_visible(&vec![], "Tasks"));
}

#[test]
fn update_check_outcomes() {
    let mut status = UpdateStatus::Idle;
    begin_update_check(&mut status);
    assert!(matches!(status, UpdateStatus::Checking));
    let available = status_after_check(UpdateCheckResult::UpdateAvailable(UpdateInfo {
        version: "0.6.0".to_string(),
        release_notes: "Faster".to_string(),
    }));
    match &available {
        UpdateStatus::Available { version, notes } => {
            assert_eq!(version, "0.6.0");
            assert_eq!(notes, "Faster");
        }
        _ => panic!("expected an available update"),
    }
    assert!(matches!(status_after_check(UpdateCheckResult::NoUpdate), UpdateStatus::NoUpdate));
    match status_after_check(UpdateCheckResult::Error("offline".to_string())) {
        UpdateStatus::Error(e) => assert_eq!(e, "offline"),
        _ => panic!("expected an error"),
    }
    let line = update_status_line(&available);
    assert_eq!(line.icon, UpdateIcon::ArrowDown);
    assert_eq!(line.message_key, "settings.update.status.available");
    assert_eq!(line.argument.as_deref(), Some("0.6.0"));
    assert_eq!(line.notes.as_deref(), Some("Faster"));
    let no_notes = update_status_line(&UpdateStatus::Available {
        version: "1".to_string(),
        notes: String::new(),
    });
    assert_eq!(no_notes.notes, None);
    let idle = update_status_line(&UpdateStatus::Idle);
    assert_eq!(idle.icon, UpdateIcon::Check);
    assert_eq!(idle.message_key, "settings.update.status.up_to_date");
    let checking = update_status_line(&UpdateStatus::Checking);
    assert_eq!(checking.icon, UpdateIcon::LoaderCircle);
    let err = update_status_line(&UpdateStatus::Error("boom".to_string()));
    assert_eq!(err.icon, UpdateIcon::CircleX);
    assert_eq!(err.argument.as_deref(), Some("boom"));
}

#[test]
fn session_manager_lists_agents_with_sessions() {
    let info = |id: &str| AgentSessionInfo { session_id: id.to_string(), status: SessionStatus::Active };
    let groups = vec![
        ("aria".to_string(), vec![info("1")]),
        ("idle-agent".to_string(), vec![]),
        ("bolt".to_string(), vec![info("2"), info("3")]),
    ];
    let kept = agents_with_sessions(groups);
    let names: Vec<&str> = kept.iter().map(|g| g.0.as_str()).collect();
    assert_eq!(names, vec!["aria", "bolt"]);
    assert_eq!(kept[1].1.len(), 2);
}

#[test]
fn only_enabled_mcp_servers_start_with_a_session() {
    let entries = vec![
        McpServerEntry { name: "fs".to_string(), enabled: true, config: 1 },
        McpServerEntry { name: "web".to_string(), enabled: false, config: 2 },
        McpServerEntry { name: "git".to_string(), enabled: true, config: 3 },
    ];
    assert_eq!(enabled_configs(entries), vec![1, 3]);
}

#[test]
fn session_rows() {
    assert_eq!(agent_header("aria", 3), "aria (3 sessions)");
    assert_eq!(short_session_id("0123456789abcdef"), "0123456789ab");
    assert_eq!(short_session_id("short"), "short");
    assert_eq!(session_title("0123456789abcdef"), "Session 0123456789ab");
    assert_eq!(session_subtitle(SessionStatus::Idle, "12:30:00"), "Idle | Last active: 12:30:00");
    assert_eq!(row_button_id(2, 7), 2007);
    assert!(can_close_session(SessionStatus::Active));
    assert!(!can_close_session(SessionStatus::Closed));
}

#[test]
fn subscriptions_filter_by_session_and_retry() {
    assert!(passes_session_filter(&None, "any"));
    assert!(passes_session_filter(&Some("s1".to_string()), "s1"));
    assert!(!passes_session_filter(&Some("s1".to_string()), "s2"));
    assert_eq!(subscribe_step(true, 0), SubscribeStep::Subscribe);
    assert_eq!(subscribe_step(false, 0), SubscribeStep::GiveUp);
    assert_eq!(subscribe_step(false, 5), SubscribeStep::RetryAfterDelay { remaining_attempts: 4 });
    let mut remaining = MESSAGE_SERVICE_MAX_RETRIES;
    let mut waits = 0;
    while let SubscribeStep::RetryAfterDelay { remaining_attempts } = subscribe_step(false, remaining) {
        remaining = remaining_attempts;
        waits += 1;
    }
    assert_eq!(waits, 60);
    assert_eq!(MESSAGE_SERVICE_RETRY_DELAY_MS, 500);
}

#[test]
fn normalizing_twice_changes_nothing_more() {
    let once = normalize_path(r"\\?\\\?\C:\x", true);
    assert_eq!(once, r"C:\x");
    assert_eq!(normalize_path(&once, true), once);
}

#[test]
fn class_names_hold_no_separator() {
    let k = klass_of("a::b::::c::D");
    assert_eq!(k, "D");
    assert!(!k.contains("::"));
}
