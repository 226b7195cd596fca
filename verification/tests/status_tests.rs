use agentx::content::IconName;
use agentx::status::{
    is_input_disabled, map_plan_entry, parse_tool_call_status, parse_tool_kind,
    session_manager_status_color, session_status_color, session_status_icon,
    should_show_loading, status_badge, status_completes_message, status_text,
    tool_call_status_icon, tool_kind_icon, Color, PlanEntryPriority, PlanEntryStatus,
    SessionStatus, ThemeColor, ToolCallStatus, ToolKind, GREEN, GREY, RED,
};

#[test]
fn tool_icons() {
    assert_eq!(tool_kind_icon(ToolKind::Read), IconName::File);
    assert_eq!(tool_kind_icon(ToolKind::Edit), IconName::Replace);
    assert_eq!(tool_kind_icon(ToolKind::Execute), IconName::SquareTerminal);
    assert_eq!(tool_kind_icon(ToolKind::SwitchMode), IconName::ArrowRight);
    assert_eq!(tool_kind_icon(ToolKind::Other), IconName::Ellipsis);
    assert_eq!(tool_call_status_icon(ToolCallStatus::Pending), IconName::Dash);
    assert_eq!(tool_call_status_icon(ToolCallStatus::InProgress), IconName::LoaderCircle);
    assert_eq!(tool_call_status_icon(ToolCallStatus::Completed), IconName::CircleCheck);
    assert_eq!(tool_call_status_icon(ToolCallStatus::Failed), IconName::CircleX);
}

#[test]
fn task_panel_status_look() {
    assert_eq!(session_status_icon(SessionStatus::InProgress), IconName::Loader);
    assert_eq!(session_status_icon(SessionStatus::Closed), IconName::CircleX);
    assert_eq!(session_status_icon(SessionStatus::Idle), IconName::Asterisk);
    assert_eq!(session_status_color(SessionStatus::Pending), GREY);
    assert_eq!(session_status_color(SessionStatus::Completed), GREEN);
    assert_eq!(session_status_color(SessionStatus::Failed), RED);
    assert_eq!(status_badge(SessionStatus::InProgress), ("task_panel.status.in_progress", Color::Rgb(GREEN)));
    assert_eq!(
        status_badge(SessionStatus::Idle),
        ("task_panel.status.idle", Color::Theme(ThemeColor::MutedForeground))
    );
    assert_eq!(status_badge(SessionStatus::Closed), ("task_panel.status.closed", Color::Rgb(RED)));
}

#[test]
fn session_manager_status_look() {
    assert_eq!(session_manager_status_color(SessionStatus::Active), ThemeColor::Success);
    assert_eq!(session_manager_status_color(SessionStatus::Idle), ThemeColor::Warning);
    assert_eq!(session_manager_status_color(SessionStatus::Failed), ThemeColor::Muted);
    assert_eq!(session_manager_status_color(SessionStatus::Pending), ThemeColor::Info);
    assert_eq!(status_text(SessionStatus::InProgress), "InProgress");
    assert_eq!(status_text(SessionStatus::Closed), "Closed");
}

#[test]
fn conversation_input_and_loading() {
    assert!(is_input_disabled(Some(SessionStatus::Closed)));
    assert!(is_input_disabled(Some(SessionStatus::Failed)));
    assert!(!is_input_disabled(Some(SessionStatus::Active)));
    assert!(!is_input_disabled(None));
    assert!(should_show_loading(Some(SessionStatus::InProgress)));
    assert!(should_show_loading(Some(SessionStatus::Pending)));
    assert!(!should_show_loading(Some(SessionStatus::Completed)));
    assert!(!should_show_loading(None));
    assert!(status_completes_message(SessionStatus::Completed));
    assert!(status_completes_message(SessionStatus::Idle));
    assert!(!status_completes_message(SessionStatus::Active));
}

#[test]
fn stored_names_are_matched_without_regard_to_case() {
    assert_eq!(parse_tool_kind(&Some("Read".to_string())), ToolKind::Read);
    assert_eq!(parse_tool_kind(&Some("SWITCH_MODE".to_string())), ToolKind::SwitchMode);
    assert_eq!(parse_tool_kind(&Some("unknown".to_string())), ToolKind::Other);
    assert_eq!(parse_tool_kind(&None), ToolKind::Other);
    assert_eq!(parse_tool_call_status(&Some("InProgress".to_string())), ToolCallStatus::InProgress);
    assert_eq!(parse_tool_call_status(&Some("FAILED".to_string())), ToolCallStatus::Failed);
    assert_eq!(parse_tool_call_status(&Some("weird".to_string())), ToolCallStatus::Pending);
    assert_eq!(map_plan_entry("HIGH", "Completed"), (PlanEntryPriority::High, PlanEntryStatus::Completed));
    assert_eq!(map_plan_entry("whatever", "IN_PROGRESS"), (PlanEntryPriority::Medium, PlanEntryStatus::InProgress));
    assert_eq!(map_plan_entry("low", "x"), (PlanEntryPriority::Low, PlanEntryStatus::Pending));
}
