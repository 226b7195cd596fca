use agentx::status::SessionStatus;
use agentx::workspace::{
    collect_all_tasks, sort_newest_first, split_by_day, timeline_tasks, ClickAction,
    TaskPanelState, ViewMode, WorkspaceGroup, WorkspaceInfo, WorkspaceTask,
};

fn task(id: &str, ws: &str, created_at: i64) -> WorkspaceTask {
    WorkspaceTask {
        id: id.to_string(),
        workspace_id: ws.to_string(),
        name: format!("Task {}", id),
        agent_name: "Aria".to_string(),
        mode: "code".to_string(),
        last_message: None,
        session_id: Some(format!("s-{}", id)),
        status: SessionStatus::Idle,
        created_at,
    }
}

fn group(id: &str, tasks: Vec<WorkspaceTask>) -> WorkspaceGroup {
    WorkspaceGroup {
        id: id.to_string(),
        name: format!("Workspace {}", id),
        path: format!("/work/{}", id),
        tasks,
        is_expanded: true,
    }
}

fn ids(tasks: &[WorkspaceTask]) -> Vec<&str> {
    tasks.iter().map(|t| t.id.as_str()).collect()
}

fn panel() -> TaskPanelState {
    let mut p = TaskPanelState::new();
    p.workspaces = vec![
        group("w1", vec![task("a", "w1", 10), task("b", "w1", 30)]),
        group("w2", vec![task("c", "w2", 20)]),
    ];
    p
}

#[test]
fn a_new_panel_is_empty() {
    let p = TaskPanelState::new();
    assert!(p.workspaces.is_empty());
    assert_eq!(p.selected_task(), None);
    assert_eq!(p.view_mode, ViewMode::Tree);
    assert!(!p.is_loading);
}

#[test]
fn selection_falls_back_to_the_first_task() {
    let mut p = panel();
    p.ensure_selected_task_valid();
    assert_eq!(p.selected_task(), Some("a"));
    p.set_selected_task(Some("c".to_string()));
    p.ensure_selected_task_valid();
    assert_eq!(p.selected_task(), Some("c"));
    p.set_selected_task(Some("gone".to_string()));
    p.ensure_selected_task_valid();
    assert_eq!(p.selected_task(), Some("a"));
    let mut empty = TaskPanelState::new();
    empty.set_selected_task(Some("x".to_string()));
    empty.ensure_selected_task_valid();
    assert_eq!(empty.selected_task(), None);
}

#[test]
fn workspaces_toggle() {
    let mut p = panel();
    p.toggle_workspace("w2");
    assert!(!p.workspaces[1].is_expanded);
    assert!(p.workspaces[0].is_expanded);
    p.toggle_workspace("w2");
    assert!(p.workspaces[1].is_expanded);
    p.toggle_workspace("none");
    assert!(p.workspaces[0].is_expanded);
}

#[test]
fn tasks_are_added_removed_and_replaced() {
    let mut p = panel();
    assert!(p.add_task_incremental("w2", task("d", "w2", 40)));
    assert_eq!(ids(&p.workspaces[1].tasks), vec!["c", "d"]);
    assert!(!p.add_task_incremental("w9", task("e", "w9", 0)));

    p.select_task("c".to_string());
    p.remove_task_incremental("w2", "c");
    assert_eq!(ids(&p.workspaces[1].tasks), vec!["d"]);
    assert_eq!(p.selected_task(), Some("a"));

    let mut renamed = task("b", "w1", 30);
    renamed.name = "Renamed".to_string();
    assert!(p.update_task_incremental("b", renamed));
    assert_eq!(p.workspaces[0].tasks[1].name, "Renamed");
    assert!(!p.update_task_incremental("zzz", task("zzz", "w1", 0)));
}

#[test]
fn workspaces_are_added_once_and_removed() {
    let mut p = panel();
    assert!(!p.add_workspace_incremental(group("w1", vec![])));
    assert!(p.add_workspace_incremental(group("w3", vec![task("f", "w3", 1)])));
    assert_eq!(p.workspaces.len(), 3);
    p.select_task("f".to_string());
    p.remove_workspace_incremental("w3");
    assert_eq!(p.workspaces.len(), 2);
    assert_eq!(p.selected_task(), Some("a"));
}

#[test]
fn session_status_updates_reach_every_task_of_the_session() {
    let mut p = panel();
    p.workspaces[1].tasks[0].session_id = Some("s-a".to_string());
    let changed = p.update_task_status_by_session_id("s-a", SessionStatus::InProgress);
    assert_eq!(changed.as_deref(), Some("c"));
    assert_eq!(p.workspaces[0].tasks[0].status, SessionStatus::InProgress);
    assert_eq!(p.workspaces[1].tasks[0].status, SessionStatus::InProgress);
    assert_eq!(p.workspaces[0].tasks[1].status, SessionStatus::Idle);
    assert_eq!(p.update_task_status_by_session_id("s-a", SessionStatus::InProgress), None);
    assert_eq!(p.session_id_for_task("b").as_deref(), Some("s-b"));
    assert_eq!(p.session_id_for_task("nope"), None);
}

#[test]
fn double_clicks_open_a_new_panel() {
    let mut p = panel();
    let first = p.handle_task_click("a", 1, false);
    assert_eq!(first, ClickAction::ScheduleSingleClick(1));
    assert!(p.single_click_is_current(1));
    assert_eq!(p.selected_task(), Some("a"));
    assert_eq!(p.handle_task_click("a", 2, false), ClickAction::OpenInNewPanel);
    assert!(!p.single_click_is_current(1));
    assert_eq!(p.handle_task_click("b", 2, false), ClickAction::ScheduleSingleClick(3));
    assert_eq!(p.handle_task_click("b", 1, true), ClickAction::CustomHandler);
    assert_eq!(p.pending_click_generation, 3);
}

#[test]
fn stale_reloads_are_ignored() {
    let mut p = panel();
    p.workspaces[1].is_expanded = false;
    let old_generation = p.begin_load();
    let current = p.begin_load();
    assert!(p.is_loading);
    assert!(!p.finish_load(old_generation, vec![], vec![]));
    assert_eq!(p.workspaces.len(), 2);
    let list = vec![
        WorkspaceInfo { id: "w2".to_string(), name: "Two".to_string(), path: "/2".to_string() },
        WorkspaceInfo { id: "w4".to_string(), name: "Four".to_string(), path: "/4".to_string() },
        WorkspaceInfo { id: "w2".to_string(), name: "Again".to_string(), path: "/2".to_string() },
    ];
    let tasks = vec![task("x", "w2", 1), task("y", "w4", 2), task("z", "w2", 3)];
    assert!(p.finish_load(current, list, tasks));
    assert!(!p.is_loading);
    assert_eq!(p.workspaces.len(), 3);
    assert_eq!(ids(&p.workspaces[0].tasks), vec!["x", "z"]);
    assert!(!p.workspaces[0].is_expanded);
    assert!(p.workspaces[1].is_expanded);
    assert!(p.workspaces[2].tasks.is_empty());
    assert_eq!(p.selected_task(), Some("x"));
}

#[test]
fn search_matches_tasks_and_workspace_names() {
    let mut p = panel();
    p.workspaces[0].tasks[1].last_message = Some("Deploy NOW".to_string());
    assert_eq!(p.get_filtered_workspaces("").len(), 2);
    let found = p.get_filtered_workspaces("deploy");
    assert_eq!(found.len(), 1);
    assert_eq!(ids(&found[0].tasks), vec!["b"]);
    let by_name = p.get_filtered_workspaces("WORKSPACE W2");
    assert_eq!(by_name.len(), 1);
    assert_eq!(by_name[0].id, "w2");
    assert!(by_name[0].tasks.is_empty());
    assert!(p.get_filtered_workspaces("nothing at all").is_empty());
}

#[test]
fn timeline_is_newest_first_and_stable() {
    let p = panel();
    assert_eq!(ids(&collect_all_tasks(&p.workspaces)), vec!["a", "b", "c"]);
    assert_eq!(ids(&timeline_tasks(&p.workspaces)), vec!["b", "c", "a"]);
    let same_time = vec![task("p", "w", 5), task("q", "w", 5), task("r", "w", 9)];
    assert_eq!(ids(&sort_newest_first(&same_time)), vec!["r", "p", "q"]);
}

#[test]
fn timeline_days() {
    let (today, yesterday, older) = split_by_day(&vec![100, 99, 50, 101, 100], 100);
    assert_eq!(today, vec![0, 4]);
    assert_eq!(yesterday, vec![1]);
    assert_eq!(older, vec![2]);
}

#[test]
fn view_mode_switches() {
    let mut p = panel();
    p.set_view_mode(ViewMode::Timeline);
    assert_eq!(p.view_mode, ViewMode::Timeline);
}
