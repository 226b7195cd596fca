use agentx::task_list::{subtitle_preview, task_for_session, task_from_welcome, AgentTask, TaskListState};

fn task(name: &str, kind: &str, session: Option<&str>) -> AgentTask {
    AgentTask {
        name: name.to_string(),
        task_type: kind.to_string(),
        session_id: session.map(|s| s.to_string()),
        subtitle: None,
    }
}

fn names(v: &[AgentTask]) -> Vec<&str> {
    v.iter().map(|t| t.name.as_str()).collect()
}

#[test]
fn tasks_are_grouped_by_type_in_order_of_first_appearance() {
    let state = TaskListState::new(vec![
        task("Fix bug", "Code", None),
        task("Write docs", "Docs", None),
        task("Refactor", "Code", None),
    ]);
    assert_eq!(state.sections, vec!["Code".to_string(), "Docs".to_string()]);
    assert_eq!(names(&state.matched[0]), vec!["Fix bug", "Refactor"]);
    assert_eq!(names(&state.matched[1]), vec!["Write docs"]);
    assert_eq!(state.selected, Some((0, 0)));
    assert_eq!(state.selected_agent_task().unwrap().name, "Fix bug");
}

#[test]
fn search_ignores_case_and_drops_empty_sections() {
    let mut state = TaskListState::new(vec![
        task("Fix BUG", "Code", None),
        task("Write docs", "Docs", None),
        task("debug build", "Build", None),
    ]);
    state.prepare("bug");
    assert_eq!(state.query, "bug");
    assert_eq!(state.sections, vec!["Code".to_string(), "Build".to_string()]);
    assert_eq!(names(&state.matched[1]), vec!["debug build"]);
    state.prepare("nothing");
    assert!(state.sections.is_empty());
    assert!(state.selected_agent_task().is_none());
}

#[test]
fn sections_collapse_and_expand() {
    let mut state = TaskListState::new(vec![task("a", "A", None), task("b", "B", None)]);
    assert_eq!(state.items_count(0), 1);
    state.toggle_section(0);
    assert!(state.is_section_collapsed(0));
    assert_eq!(state.items_count(0), 0);
    assert!(!state.all_sections_collapsed());
    state.toggle_section(1);
    assert!(state.all_sections_collapsed());
    state.toggle_section(0);
    assert!(!state.is_section_collapsed(0));
    assert_eq!(state.items_count(0), 1);
}

#[test]
fn eof_after_six_thousand_tasks() {
    let mut state = TaskListState::new(vec![task("a", "A", None)]);
    state.update_eof();
    assert!(!state.eof);
    assert!(state.is_eof());
    let many: Vec<AgentTask> = (0..6000).map(|i| task(&format!("t{}", i), "T", None)).collect();
    let mut big = TaskListState::new(many);
    big.update_eof();
    assert!(big.eof);
    assert!(!big.is_eof());
}

#[test]
fn session_messages_become_subtitles() {
    let mut state = TaskListState::new(vec![
        task("one", "A", Some("s1")),
        task("two", "A", Some("s2")),
        task("three", "A", Some("s2")),
    ]);
    state.prepare("one");
    assert!(state.handle_session_message("s2", "hello"));
    assert_eq!(state.tasks[1].subtitle.as_deref(), Some("hello"));
    assert_eq!(state.tasks[2].subtitle, None);
    assert_eq!(state.query, "");
    assert_eq!(state.matched[0].len(), 3);
    assert!(!state.handle_session_message("s9", "hello"));
    assert!(!state.handle_session_message("s1", ""));
    assert_eq!(state.tasks[0].subtitle, None);
}

#[test]
fn previews_are_cut_at_fifty_bytes() {
    let long = "a".repeat(60);
    assert_eq!(subtitle_preview(&long), format!("{}...", "a".repeat(50)));
    assert_eq!(subtitle_preview(&"b".repeat(50)), "b".repeat(50));
    assert_eq!(subtitle_preview("short"), "short");
}

#[test]
fn new_tasks_go_to_the_front() {
    let mut state = TaskListState::new(vec![task("old", "Default", None)]);
    state.prepare("old");
    state.add_task_at_front(task_for_session("new", "s-9"));
    assert_eq!(names(&state.tasks), vec!["new", "old"]);
    assert_eq!(state.query, "");
    assert_eq!(state.tasks[0].session_id.as_deref(), Some("s-9"));
    assert_eq!(state.tasks[0].task_type, "Default");
    let w = task_from_welcome("Explain this repo");
    assert_eq!(w.name, "Explain this repo");
    assert_eq!(w.task_type, "Conversation");
    assert_eq!(w.session_id, None);
}
