//! The task panel's model: tasks grouped by workspace, the selected task, and how
//! workspace events change them.
use vstd::prelude::*;
use crate::content::{clone_opt, opt_view};
use crate::seqs::{first_match, lemma_first_match_prefix, lemma_first_match_props, lemma_first_match_step};
use crate::status::SessionStatus;
use crate::text::{str_eq, string_of};

verus! {

/// A task of a workspace.
pub struct WorkspaceTask {
    pub id: String,
    pub workspace_id: String,
    pub name: String,
    pub agent_name: String,
    pub mode: String,
    pub last_message: Option<String>,
    pub session_id: Option<String>,
    pub status: SessionStatus,
    /// Creation time, in seconds since the Unix epoch.
    pub created_at: i64,
}

/// A workspace with its tasks, as the task panel shows it.
pub struct WorkspaceGroup {
    pub id: String,
    pub name: String,
    pub path: String,
    pub tasks: Vec<WorkspaceTask>,
    pub is_expanded: bool,
}

/// How the task panel lays out its tasks.
#[derive(Clone, Copy, PartialEq, Eq, Structural, Debug)]
pub enum ViewMode {
    Tree,
    Timeline,
}

/// The abstract value of a task.
pub struct TaskView {
    pub id: Seq<char>,
    pub workspace_id: Seq<char>,
    pub name: Seq<char>,
    pub agent_name: Seq<char>,
    pub mode: Seq<char>,
    pub last_message: Option<Seq<char>>,
    pub session_id: Option<Seq<char>>,
    pub status: SessionStatus,
    pub created_at: i64,
}

/// The abstract value of a workspace group.
pub struct GroupView {
    pub id: Seq<char>,
    pub name: Seq<char>,
    pub path: Seq<char>,
    pub tasks: Seq<TaskView>,
    pub is_expanded: bool,
}

impl View for WorkspaceTask {
    type V = TaskView;

    open spec fn view(&self) -> TaskView {
        TaskView {
            id: self.id@,
            workspace_id: self.workspace_id@,
            name: self.name@,
            agent_name: self.agent_name@,
            mode: self.mode@,
            last_message: opt_view(self.last_message),
            session_id: opt_view(self.session_id),
            status: self.status,
            created_at: self.created_at,
        }
    }
}

/// The views of a sequence of tasks.
pub open spec fn task_views(s: Seq<WorkspaceTask>) -> Seq<TaskView> {
    s.map_values(|t: WorkspaceTask| t@)
}

impl View for WorkspaceGroup {
    type V = GroupView;

    open spec fn view(&self) -> GroupView {
        GroupView {
            id: self.id@,
            name: self.name@,
            path: self.path@,
            tasks: task_views(self.tasks@),
            is_expanded: self.is_expanded,
        }
    }
}

/// The views of a sequence of groups.
pub open spec fn group_views(s: Seq<WorkspaceGroup>) -> Seq<GroupView> {
    s.map_values(|g: WorkspaceGroup| g@)
}

/// A copy of a task.
pub fn clone_task(t: &WorkspaceTask) -> (r: WorkspaceTask)
    ensures
        r@ == t@,
{
    WorkspaceTask {
        id: string_of(t.id.as_str()),
        workspace_id: string_of(t.workspace_id.as_str()),
        name: string_of(t.name.as_str()),
        agent_name: string_of(t.agent_name.as_str()),
        mode: string_of(t.mode.as_str()),
        last_message: clone_opt(&t.last_message),
        session_id: clone_opt(&t.session_id),
        status: t.status,
        created_at: t.created_at,
    }
}

/// A copy of a list of tasks.
pub fn clone_tasks(v: &Vec<WorkspaceTask>) -> (r: Vec<WorkspaceTask>)
    ensures
        task_views(r@) == task_views(v@),
{
    let mut r: Vec<WorkspaceTask> = Vec::new();
    let mut i: usize = 0;
    while i < v.len()
        invariant
            i <= v.len(),
            task_views(r@) == task_views(v@).take(i as int),
        decreases v.len() - i,
    {
        let ghost before = r@;
        r.push(clone_task(&v[i]));
        assert(task_views(r@) =~= task_views(before).push(v@[i as int]@));
        assert(task_views(v@).take(i + 1) =~= task_views(v@).take(i as int).push(v@[i as int]@));
        i = i + 1;
    }
    assert(task_views(v@).take(v.len() as int) =~= task_views(v@));
    r
}

/// A copy of a group.
pub fn clone_group(g: &WorkspaceGroup) -> (r: WorkspaceGroup)
    ensures
        r@ == g@,
{
    WorkspaceGroup {
        id: string_of(g.id.as_str()),
        name: string_of(g.name.as_str()),
        path: string_of(g.path.as_str()),
        tasks: clone_tasks(&g.tasks),
        is_expanded: g.is_expanded,
    }
}

/// A copy of a list of groups.
pub fn clone_groups(v: &Vec<WorkspaceGroup>) -> (r: Vec<WorkspaceGroup>)
    ensures
        group_views(r@) == group_views(v@),
{
    let mut r: Vec<WorkspaceGroup> = Vec::new();
    let mut i: usize = 0;
    while i < v.len()
        invariant
            i <= v.len(),
            group_views(r@) == group_views(v@).take(i as int),
        decreases v.len() - i,
    {
        let ghost before = r@;
        r.push(clone_group(&v[i]));
        assert(group_views(r@) =~= group_views(before).push(v@[i as int]@));
        assert(group_views(v@).take(i + 1) =~= group_views(v@).take(i as int).push(v@[i as int]@));
        i = i + 1;
    }
    assert(group_views(v@).take(v.len() as int) =~= group_views(v@));
    r
}

// ---------------------------------------------------------------------------
// All tasks, in order
// ---------------------------------------------------------------------------

/// The tasks of all groups, group after group.
pub open spec fn all_tasks(ws: Seq<GroupView>) -> Seq<TaskView>
    decreases ws.len(),
{
    if ws.len() == 0 {
        Seq::empty()
    } else {
        all_tasks(ws.drop_last()) + ws.last().tasks
    }
}

proof fn lemma_all_tasks_take_step(ws: Seq<GroupView>, i: int)
    requires
        0 <= i < ws.len(),
    ensures
        all_tasks(ws.take(i + 1)) == all_tasks(ws.take(i)) + ws[i].tasks,
{
    assert(ws.take(i + 1).drop_last() =~= ws.take(i));
}

/// Some task of the groups has id `id`.
pub open spec fn has_task(ws: Seq<GroupView>, id: Seq<char>) -> bool {
    ids_contain(all_tasks(ws), id)
}

/// The selection after making sure it names an existing task: kept when valid,
/// otherwise the first task, or nothing when there are no tasks.
pub open spec fn valid_selection(ws: Seq<GroupView>, selected: Option<Seq<char>>) -> Option<Seq<char>> {
    if selected is Some && has_task(ws, selected->0) {
        selected
    } else if all_tasks(ws).len() > 0 {
        Some(all_tasks(ws)[0].id)
    } else {
        None
    }
}

/// Some task of `s` has id `id`.
pub open spec fn ids_contain(s: Seq<TaskView>, id: Seq<char>) -> bool {
    exists|k: int| 0 <= k < s.len() && #[trigger] s[k].id == id
}

proof fn lemma_ids_contain_concat(a: Seq<TaskView>, b: Seq<TaskView>, id: Seq<char>)
    ensures
        ids_contain(a + b, id) == (ids_contain(a, id) || ids_contain(b, id)),
{
    if ids_contain(a, id) {
        let k = choose|k: int| 0 <= k < a.len() && #[trigger] a[k].id == id;
        assert((a + b)[k] == a[k]);
    }
    if ids_contain(b, id) {
        let k = choose|k: int| 0 <= k < b.len() && #[trigger] b[k].id == id;
        assert((a + b)[a.len() + k] == b[k]);
    }
    if ids_contain(a + b, id) {
        let k = choose|k: int| 0 <= k < (a + b).len() && #[trigger] (a + b)[k].id == id;
        if k < a.len() {
            assert(a[k] == (a + b)[k]);
        } else {
            assert(b[k - a.len()] == (a + b)[k]);
        }
    }
}

/// Whether some task in `tasks` has id `id`.
pub fn tasks_contain(tasks: &Vec<WorkspaceTask>, id: &str) -> (b: bool)
    ensures
        b == ids_contain(task_views(tasks@), id@),
{
    let ghost tv = task_views(tasks@);
    let mut j: usize = 0;
    while j < tasks.len()
        invariant
            j <= tasks.len(),
            tv == task_views(tasks@),
            forall|k: int| 0 <= k < j ==> tv[k].id != id@,
        decreases tasks.len() - j,
    {
        if str_eq(tasks[j].id.as_str(), id) {
            assert(tv[j as int].id == id@);
            return true;
        }
        j = j + 1;
    }
    false
}

/// Whether some task has id `id`, and the first task's id.
pub fn scan_tasks(ws: &Vec<WorkspaceGroup>, id: &Option<String>) -> (r: (bool, Option<String>))
    ensures
        r.0 == (id is Some && has_task(group_views(ws@), id->0@)),
        opt_view(r.1) == (if all_tasks(group_views(ws@)).len() > 0 {
            Some(all_tasks(group_views(ws@))[0].id)
        } else {
            None::<Seq<char>>
        }),
{
    let ghost gv = group_views(ws@);
    let mut found = false;
    let mut first: Option<String> = None;
    let mut i: usize = 0;
    assert(gv.take(0) =~= Seq::<GroupView>::empty());
    while i < ws.len()
        invariant
            i <= ws.len(),
            gv == group_views(ws@),
            found == (id is Some && ids_contain(all_tasks(gv.take(i as int)), id->0@)),
            opt_view(first) == (if all_tasks(gv.take(i as int)).len() > 0 {
                Some(all_tasks(gv.take(i as int))[0].id)
            } else {
                None::<Seq<char>>
            }),
        decreases ws.len() - i,
    {
        proof {
            lemma_all_tasks_take_step(gv, i as int);
        }
        let g = &ws[i];
        let ghost pre = all_tasks(gv.take(i as int));
        let ghost cur = all_tasks(gv.take(i + 1));
        assert(cur == pre + gv[i as int].tasks);
        if first.is_none() && g.tasks.len() > 0 {
            first = Some(string_of(g.tasks[0].id.as_str()));
            assert(cur[0] == gv[i as int].tasks[0]);
        }
        proof {
            if pre.len() > 0 {
                assert(cur[0] == pre[0]);
            }
        }
        match id {
            Some(s) => {
                if tasks_contain(&g.tasks, s.as_str()) {
                    found = true;
                }
                proof {
                    lemma_ids_contain_concat(pre, gv[i as int].tasks, s@);
                }
            },
            None => {},
        }
        i = i + 1;
    }
    assert(gv.take(ws.len() as int) =~= gv);
    (found, first)
}

// ---------------------------------------------------------------------------
// The task panel's state
// ---------------------------------------------------------------------------

/// What the task panel remembers between events.
pub struct TaskPanelState {
    pub workspaces: Vec<WorkspaceGroup>,
    pub selected_task_id: Option<String>,
    pub view_mode: ViewMode,
    pub load_generation: u64,
    pub pending_click_generation: u64,
    pub last_click_task_id: Option<String>,
    pub is_loading: bool,
}

impl TaskPanelState {
    /// An empty panel in tree view.
    pub fn new() -> (r: Self)
        ensures
            r.workspaces@.len() == 0,
            r.selected_task_id is None,
            r.view_mode == ViewMode::Tree,
            r.load_generation == 0,
            r.pending_click_generation == 0,
            r.last_click_task_id is None,
            !r.is_loading,
    {
        TaskPanelState {
            workspaces: Vec::new(),
            selected_task_id: None,
            view_mode: ViewMode::Tree,
            load_generation: 0,
            pending_click_generation: 0,
            last_click_task_id: None,
            is_loading: false,
        }
    }

    /// Keeps the selection if it names an existing task; otherwise selects the first task.
    pub fn ensure_selected_task_valid(&mut self)
        ensures
            opt_view(final(self).selected_task_id) == valid_selection(
                group_views(old(self).workspaces@),
                opt_view(old(self).selected_task_id),
            ),
            final(self).workspaces == old(self).workspaces,
            final(self).view_mode == old(self).view_mode,
            final(self).load_generation == old(self).load_generation,
            final(self).pending_click_generation == old(self).pending_click_generation,
            final(self).last_click_task_id == old(self).last_click_task_id,
            final(self).is_loading == old(self).is_loading,
    {
        let (found, first) = scan_tasks(&self.workspaces, &self.selected_task_id);
        if found {
            return ;
        }
        self.selected_task_id = first;
    }
}

} // verus!

verus! {

// ---------------------------------------------------------------------------
// Finding groups and tasks
// ---------------------------------------------------------------------------

/// Group `g` has id `id`.
pub open spec fn group_has_id(id: Seq<char>) -> spec_fn(GroupView) -> bool {
    |g: GroupView| g.id == id
}

/// Task `t` has id `id`.
pub open spec fn task_has_id(id: Seq<char>) -> spec_fn(TaskView) -> bool {
    |t: TaskView| t.id == id
}

/// Position of the first group with id `id`.
pub fn find_group(ws: &Vec<WorkspaceGroup>, id: &str) -> (r: Option<usize>)
    ensures
        match r {
            Some(k) => first_match(group_views(ws@), group_has_id(id@)) == Some(k as int),
            None => first_match(group_views(ws@), group_has_id(id@)) is None,
        },
{
    let ghost gv = group_views(ws@);
    let mut i: usize = 0;
    assert(gv.take(0) =~= Seq::<GroupView>::empty());
    while i < ws.len()
        invariant
            i <= ws.len(),
            gv == group_views(ws@),
            first_match(gv.take(i as int), group_has_id(id@)) is None,
        decreases ws.len() - i,
    {
        proof {
            lemma_first_match_step(gv, group_has_id(id@), i as int);
        }
        if str_eq(ws[i].id.as_str(), id) {
            proof {
                lemma_first_match_prefix(gv, group_has_id(id@), i + 1);
            }
            return Some(i);
        }
        i = i + 1;
    }
    assert(gv.take(i as int) =~= gv);
    None
}

/// Position of the first task with id `id`.
pub fn find_task(tasks: &Vec<WorkspaceTask>, id: &str) -> (r: Option<usize>)
    ensures
        match r {
            Some(k) => first_match(task_views(tasks@), task_has_id(id@)) == Some(k as int),
            None => first_match(task_views(tasks@), task_has_id(id@)) is None,
        },
{
    let ghost tv = task_views(tasks@);
    let mut i: usize = 0;
    assert(tv.take(0) =~= Seq::<TaskView>::empty());
    while i < tasks.len()
        invariant
            i <= tasks.len(),
            tv == task_views(tasks@),
            first_match(tv.take(i as int), task_has_id(id@)) is None,
        decreases tasks.len() - i,
    {
        proof {
            lemma_first_match_step(tv, task_has_id(id@), i as int);
        }
        if str_eq(tasks[i].id.as_str(), id) {
            proof {
                lemma_first_match_prefix(tv, task_has_id(id@), i + 1);
            }
            return Some(i);
        }
        i = i + 1;
    }
    assert(tv.take(i as int) =~= tv);
    None
}

/// The groups after flipping whether the first group with id `id` is expanded.
pub open spec fn toggled(ws: Seq<GroupView>, id: Seq<char>) -> Seq<GroupView> {
    match first_match(ws, group_has_id(id)) {
        Some(k) => ws.update(k, GroupView { is_expanded: !ws[k].is_expanded, ..ws[k] }),
        None => ws,
    }
}

/// The groups after adding `t` to the first group with id `id` (unchanged when there is none).
pub open spec fn with_task_added(ws: Seq<GroupView>, id: Seq<char>, t: TaskView) -> Seq<GroupView> {
    match first_match(ws, group_has_id(id)) {
        Some(k) => ws.update(k, GroupView { tasks: ws[k].tasks.push(t), ..ws[k] }),
        None => ws,
    }
}

/// Tasks other than `task_id`.
pub open spec fn not_task(task_id: Seq<char>) -> spec_fn(TaskView) -> bool {
    |t: TaskView| t.id != task_id
}

/// The groups after removing task `task_id` from the first group with id `id`.
pub open spec fn with_task_removed(ws: Seq<GroupView>, id: Seq<char>, task_id: Seq<char>) -> Seq<GroupView> {
    match first_match(ws, group_has_id(id)) {
        Some(k) => ws.update(k, GroupView { tasks: ws[k].tasks.filter(not_task(task_id)), ..ws[k] }),
        None => ws,
    }
}

/// The groups after replacing task `task_id` with `t` in the first group with `t`'s
/// workspace id (unchanged when the group or the task is missing).
pub open spec fn with_task_replaced(ws: Seq<GroupView>, task_id: Seq<char>, t: TaskView) -> Seq<GroupView> {
    match first_match(ws, group_has_id(t.workspace_id)) {
        Some(k) => match first_match(ws[k].tasks, task_has_id(task_id)) {
            Some(j) => ws.update(k, GroupView { tasks: ws[k].tasks.update(j, t), ..ws[k] }),
            None => ws,
        },
        None => ws,
    }
}

/// Groups other than `id`.
pub open spec fn not_group(id: Seq<char>) -> spec_fn(GroupView) -> bool {
    |g: GroupView| g.id != id
}

/// The same panel with different groups and selection.
pub open spec fn same_panel_except_groups(a: TaskPanelState, b: TaskPanelState) -> bool {
    &&& a.view_mode == b.view_mode
    &&& a.load_generation == b.load_generation
    &&& a.pending_click_generation == b.pending_click_generation
    &&& a.last_click_task_id == b.last_click_task_id
    &&& a.is_loading == b.is_loading
}

impl TaskPanelState {
    /// Expands or collapses the first workspace with id `workspace_id`.
    pub fn toggle_workspace(&mut self, workspace_id: &str)
        ensures
            group_views(final(self).workspaces@) == toggled(group_views(old(self).workspaces@), workspace_id@),
            final(self).selected_task_id == old(self).selected_task_id,
            same_panel_except_groups(*final(self), *old(self)),
    {
        let ghost gv = group_views(self.workspaces@);
        match find_group(&self.workspaces, workspace_id) {
            Some(k) => {
                proof {
                    lemma_first_match_props(gv, group_has_id(workspace_id@));
                }
                let e = self.workspaces[k].is_expanded;
                self.workspaces[k].is_expanded = !e;
                assert(group_views(self.workspaces@) =~= toggled(gv, workspace_id@));
            },
            None => {},
        }
    }

    /// Adds a new task to the first workspace with id `workspace_id`; false when there
    /// is no such workspace.
    pub fn add_task_incremental(&mut self, workspace_id: &str, task: WorkspaceTask) -> (found: bool)
        ensures
            group_views(final(self).workspaces@) == with_task_added(
                group_views(old(self).workspaces@),
                workspace_id@,
                task@,
            ),
            found == (first_match(group_views(old(self).workspaces@), group_has_id(workspace_id@)) is Some),
            final(self).selected_task_id == old(self).selected_task_id,
            same_panel_except_groups(*final(self), *old(self)),
    {
        let ghost gv = group_views(self.workspaces@);
        let ghost tv = task@;
        match find_group(&self.workspaces, workspace_id) {
            Some(k) => {
                proof {
                    lemma_first_match_props(gv, group_has_id(workspace_id@));
                }
                self.workspaces[k].tasks.push(task);
                assert(task_views(self.workspaces@[k as int].tasks@) =~= gv[k as int].tasks.push(tv));
                assert(group_views(self.workspaces@) =~= with_task_added(gv, workspace_id@, tv));
                true
            },
            None => false,
        }
    }

    /// Removes task `task_id` from the first workspace with id `workspace_id`; when it was
    /// the selected task, the selection moves to a valid task.
    pub fn remove_task_incremental(&mut self, workspace_id: &str, task_id: &str)
        ensures
            group_views(final(self).workspaces@) == with_task_removed(
                group_views(old(self).workspaces@),
                workspace_id@,
                task_id@,
            ),
            opt_view(final(self).selected_task_id) == (if opt_view(old(self).selected_task_id)
                == Some(task_id@) {
                valid_selection(group_views(final(self).workspaces@), Some(task_id@))
            } else {
                opt_view(old(self).selected_task_id)
            }),
            same_panel_except_groups(*final(self), *old(self)),
    {
        let ghost gv = group_views(self.workspaces@);
        match find_group(&self.workspaces, workspace_id) {
            Some(k) => {
                proof {
                    lemma_first_match_props(gv, group_has_id(workspace_id@));
                }
                let kept = retain_tasks(&self.workspaces[k].tasks, task_id);
                self.workspaces[k].tasks = kept;
                assert(group_views(self.workspaces@) =~= with_task_removed(gv, workspace_id@, task_id@));
            },
            None => {},
        }
        let was_selected = match &self.selected_task_id {
            Some(s) => str_eq(s.as_str(), task_id),
            None => false,
        };
        if was_selected {
            self.ensure_selected_task_valid();
        }
    }

    /// Replaces task `task_id` by its new version, in the workspace the new version names.
    pub fn update_task_incremental(&mut self, task_id: &str, updated: WorkspaceTask) -> (done: bool)
        ensures
            group_views(final(self).workspaces@) == with_task_replaced(
                group_views(old(self).workspaces@),
                task_id@,
                updated@,
            ),
            done == (first_match(group_views(old(self).workspaces@), group_has_id(updated@.workspace_id)) matches Some(k)
                && first_match(group_views(old(self).workspaces@)[k].tasks, task_has_id(task_id@)) is Some),
            final(self).selected_task_id == old(self).selected_task_id,
            same_panel_except_groups(*final(self), *old(self)),
    {
        let ghost gv = group_views(self.workspaces@);
        let ghost uv = updated@;
        match find_group(&self.workspaces, updated.workspace_id.as_str()) {
            Some(k) => {
                proof {
                    lemma_first_match_props(gv, group_has_id(uv.workspace_id));
                }
                match find_task(&self.workspaces[k].tasks, task_id) {
                    Some(j) => {
                        proof {
                            lemma_first_match_props(gv[k as int].tasks, task_has_id(task_id@));
                        }
                        self.workspaces[k].tasks.set(j, updated);
                        assert(task_views(self.workspaces@[k as int].tasks@) =~= gv[k as int].tasks.update(
                            j as int,
                            uv,
                        ));
                        assert(group_views(self.workspaces@) =~= with_task_replaced(gv, task_id@, uv));
                        true
                    },
                    None => false,
                }
            },
            None => false,
        }
    }

    /// Adds a workspace at the end, unless one with its id is already shown.
    pub fn add_workspace_incremental(&mut self, group: WorkspaceGroup) -> (added: bool)
        ensures
            added == (first_match(group_views(old(self).workspaces@), group_has_id(group@.id)) is None),
            group_views(final(self).workspaces@) == (if added {
                group_views(old(self).workspaces@).push(group@)
            } else {
                group_views(old(self).workspaces@)
            }),
            final(self).selected_task_id == old(self).selected_task_id,
            same_panel_except_groups(*final(self), *old(self)),
    {
        let ghost gv = group_views(self.workspaces@);
        let ghost g = group@;
        match find_group(&self.workspaces, group.id.as_str()) {
            Some(_) => false,
            None => {
                self.workspaces.push(group);
                assert(group_views(self.workspaces@) =~= gv.push(g));
                true
            },
        }
    }

    /// Removes every workspace with id `workspace_id` and makes sure the selection is valid.
    pub fn remove_workspace_incremental(&mut self, workspace_id: &str)
        ensures
            group_views(final(self).workspaces@) == group_views(old(self).workspaces@).filter(
                not_group(workspace_id@),
            ),
            opt_view(final(self).selected_task_id) == valid_selection(
                group_views(final(self).workspaces@),
                opt_view(old(self).selected_task_id),
            ),
            same_panel_except_groups(*final(self), *old(self)),
    {
        let kept = retain_groups(&self.workspaces, workspace_id);
        self.workspaces = kept;
        self.ensure_selected_task_valid();
    }
}

/// The groups of `ws` other than `id`, in order.
pub fn retain_groups(ws: &Vec<WorkspaceGroup>, id: &str) -> (r: Vec<WorkspaceGroup>)
    ensures
        group_views(r@) == group_views(ws@).filter(not_group(id@)),
{
    let ghost gv = group_views(ws@);
    let mut r: Vec<WorkspaceGroup> = Vec::new();
    let mut i: usize = 0;
    assert(gv.take(0) =~= Seq::<GroupView>::empty());
    reveal(Seq::filter);
    while i < ws.len()
        invariant
            i <= ws.len(),
            gv == group_views(ws@),
            group_views(r@) == gv.take(i as int).filter(not_group(id@)),
        decreases ws.len() - i,
    {
        proof {
            crate::seqs::lemma_filter_take_step(gv, not_group(id@), i as int);
        }
        if !str_eq(ws[i].id.as_str(), id) {
            let ghost before = r@;
            r.push(clone_group(&ws[i]));
            assert(group_views(r@) =~= group_views(before).push(gv[i as int]));
        }
        i = i + 1;
    }
    assert(gv.take(i as int) =~= gv);
    r
}

/// The tasks of `tasks` other than `task_id`, in order.
pub fn retain_tasks(tasks: &Vec<WorkspaceTask>, task_id: &str) -> (r: Vec<WorkspaceTask>)
    ensures
        task_views(r@) == task_views(tasks@).filter(not_task(task_id@)),
{
    let ghost tv = task_views(tasks@);
    let mut r: Vec<WorkspaceTask> = Vec::new();
    let mut i: usize = 0;
    assert(tv.take(0) =~= Seq::<TaskView>::empty());
    reveal(Seq::filter);
    while i < tasks.len()
        invariant
            i <= tasks.len(),
            tv == task_views(tasks@),
            task_views(r@) == tv.take(i as int).filter(not_task(task_id@)),
        decreases tasks.len() - i,
    {
        proof {
            crate::seqs::lemma_filter_take_step(tv, not_task(task_id@), i as int);
        }
        if !str_eq(tasks[i].id.as_str(), task_id) {
            let ghost before = r@;
            r.push(clone_task(&tasks[i]));
            assert(task_views(r@) =~= task_views(before).push(tv[i as int]));
        }
        i = i + 1;
    }
    assert(tv.take(i as int) =~= tv);
    r
}

} // verus!

verus! {

// ---------------------------------------------------------------------------
// Session status updates
// ---------------------------------------------------------------------------

/// A task of session `sid` takes status `st`; other tasks stay.
pub open spec fn with_status(t: TaskView, sid: Seq<char>, st: SessionStatus) -> TaskView {
    if t.session_id == Some(sid) {
        TaskView { status: st, ..t }
    } else {
        t
    }
}

/// Setting the status changes task `t`.
pub open spec fn status_changes(t: TaskView, sid: Seq<char>, st: SessionStatus) -> bool {
    t.session_id == Some(sid) && t.status != st
}

/// A group whose tasks of session `sid` take status `st`.
pub open spec fn group_with_status(g: GroupView, sid: Seq<char>, st: SessionStatus) -> GroupView {
    GroupView { tasks: g.tasks.map_values(|t: TaskView| with_status(t, sid, st)), ..g }
}

/// The groups after every task of session `sid` takes status `st`.
pub open spec fn groups_with_status(ws: Seq<GroupView>, sid: Seq<char>, st: SessionStatus) -> Seq<GroupView> {
    ws.map_values(|g: GroupView| group_with_status(g, sid, st))
}

/// Id of the last task (in panel order) whose status the update changes.
pub open spec fn last_changed(s: Seq<TaskView>, sid: Seq<char>, st: SessionStatus) -> Option<Seq<char>>
    decreases s.len(),
{
    if s.len() == 0 {
        None
    } else if status_changes(s.last(), sid, st) {
        Some(s.last().id)
    } else {
        last_changed(s.drop_last(), sid, st)
    }
}

proof fn lemma_last_changed_push(s: Seq<TaskView>, x: TaskView, sid: Seq<char>, st: SessionStatus)
    ensures
        last_changed(s.push(x), sid, st) == (if status_changes(x, sid, st) {
            Some(x.id)
        } else {
            last_changed(s, sid, st)
        }),
{
    assert(s.push(x).drop_last() =~= s);
}

/// Whether task `t` belongs to session `sid`.
pub fn session_matches(t: &WorkspaceTask, sid: &str) -> (b: bool)
    ensures
        b == (t@.session_id == Some(sid@)),
{
    match &t.session_id {
        Some(s) => str_eq(s.as_str(), sid),
        None => false,
    }
}

impl TaskPanelState {
    /// Sets the status of every task of session `session_id`; returns the id of the last
    /// task whose status changed (the one to persist), or `None` when nothing changed.
    pub fn update_task_status_by_session_id(
        &mut self,
        session_id: &str,
        status: SessionStatus,
    ) -> (changed: Option<String>)
        ensures
            group_views(final(self).workspaces@) == groups_with_status(
                group_views(old(self).workspaces@),
                session_id@,
                status,
            ),
            opt_view(changed) == last_changed(all_tasks(group_views(old(self).workspaces@)), session_id@, status),
            final(self).selected_task_id == old(self).selected_task_id,
            same_panel_except_groups(*final(self), *old(self)),
    {
        let ghost gv0 = group_views(self.workspaces@);
        let ghost sid = session_id@;
        let mut changed: Option<String> = None;
        let mut i: usize = 0;
        assert(gv0.take(0) =~= Seq::<GroupView>::empty());
        while i < self.workspaces.len()
            invariant
                i <= self.workspaces.len() == gv0.len(),
                forall|g: int| 0 <= g < i ==> #[trigger] group_views(self.workspaces@)[g] == group_with_status(gv0[g], sid, status),
                forall|g: int| i <= g < gv0.len() ==> #[trigger] group_views(self.workspaces@)[g] == gv0[g],
                opt_view(changed) == last_changed(all_tasks(gv0.take(i as int)), sid, status),
                self.selected_task_id == old(self).selected_task_id,
                same_panel_except_groups(*self, *old(self)),
                gv0 == group_views(old(self).workspaces@),
                sid == session_id@,
            decreases gv0.len() - i,
        {
            proof {
                lemma_all_tasks_take_step(gv0, i as int);
            }
            let ghost pre = all_tasks(gv0.take(i as int));
            let ghost orig = gv0[i as int];
            let mut j: usize = 0;
            assert(orig.tasks.take(0) =~= Seq::<TaskView>::empty());
            assert(pre + orig.tasks.take(0) =~= pre);
            while j < self.workspaces[i].tasks.len()
                invariant
                    i < self.workspaces.len() == gv0.len(),
                    j <= self.workspaces@[i as int].tasks@.len() == orig.tasks.len(),
                    orig == gv0[i as int],
                    pre == all_tasks(gv0.take(i as int)),
                    group_views(self.workspaces@)[i as int].id == orig.id,
                    group_views(self.workspaces@)[i as int].name == orig.name,
                    group_views(self.workspaces@)[i as int].path == orig.path,
                    group_views(self.workspaces@)[i as int].is_expanded == orig.is_expanded,
                    forall|k: int| 0 <= k < j ==> #[trigger] group_views(self.workspaces@)[i as int].tasks[k] == with_status(orig.tasks[k], sid, status),
                    forall|k: int| j <= k < orig.tasks.len() ==> #[trigger] group_views(self.workspaces@)[i as int].tasks[k] == orig.tasks[k],
                    forall|g: int| 0 <= g < i ==> #[trigger] group_views(self.workspaces@)[g] == group_with_status(gv0[g], sid, status),
                    forall|g: int| i < g < gv0.len() ==> #[trigger] group_views(self.workspaces@)[g] == gv0[g],
                    opt_view(changed) == last_changed(pre + orig.tasks.take(j as int), sid, status),
                    self.selected_task_id == old(self).selected_task_id,
                    same_panel_except_groups(*self, *old(self)),
                    gv0 == group_views(old(self).workspaces@),
                    sid == session_id@,
                decreases orig.tasks.len() - j,
            {
                proof {
                    lemma_last_changed_push(pre + orig.tasks.take(j as int), orig.tasks[j as int], sid, status);
                    assert(pre + orig.tasks.take(j + 1) =~= (pre + orig.tasks.take(j as int)).push(orig.tasks[j as int]));
                }
                let ghost ws_before = group_views(self.workspaces@);
                let ghost tv_before = ws_before[i as int].tasks;
                assert(tv_before[j as int] == orig.tasks[j as int]);
                assert(tv_before == task_views(self.workspaces@[i as int].tasks@));
                assert(orig.tasks[j as int] == self.workspaces@[i as int].tasks@[j as int]@);
                let matches = session_matches(&self.workspaces[i].tasks[j], session_id);
                assert(matches == (orig.tasks[j as int].session_id == Some(sid)));
                if matches && self.workspaces[i].tasks[j].status != status {
                    assert(status_changes(orig.tasks[j as int], sid, status));
                    changed = Some(string_of(self.workspaces[i].tasks[j].id.as_str()));
                    self.workspaces[i].tasks[j].status = status;
                    assert(group_views(self.workspaces@)[i as int].tasks[j as int] == with_status(orig.tasks[j as int], sid, status));
                } else {
                    assert(!status_changes(orig.tasks[j as int], sid, status));
                    assert(with_status(orig.tasks[j as int], sid, status) == orig.tasks[j as int]);
                }
                proof {
                    assert(group_views(self.workspaces@)[i as int].tasks =~= tv_before.update(
                        j as int,
                        with_status(orig.tasks[j as int], sid, status),
                    ));
                    assert forall|g: int| 0 <= g < gv0.len() && g != i implies #[trigger] group_views(self.workspaces@)[g] == ws_before[g] by {
                        assert(self.workspaces@[g] == old(self).workspaces@[g] || true);
                    }
                }
                j = j + 1;
            }
            proof {
                assert(group_views(self.workspaces@)[i as int].tasks =~= group_with_status(orig, sid, status).tasks);
                assert(orig.tasks.take(orig.tasks.len() as int) =~= orig.tasks);
            }
            i = i + 1;
        }
        assert(gv0.take(gv0.len() as int) =~= gv0);
        assert(group_views(self.workspaces@) =~= groups_with_status(gv0, sid, status));
        changed
    }

    /// The session of the first task with id `task_id`, if that task has one.
    pub fn session_id_for_task(&self, task_id: &str) -> (r: Option<String>)
        ensures
            opt_view(r) == (match first_match(all_tasks(group_views(self.workspaces@)), task_has_id(task_id@)) {
                Some(k) => all_tasks(group_views(self.workspaces@))[k].session_id,
                None => None,
            }),
    {
        let ghost gv = group_views(self.workspaces@);
        let mut i: usize = 0;
        assert(gv.take(0) =~= Seq::<GroupView>::empty());
        while i < self.workspaces.len()
            invariant
                i <= self.workspaces.len(),
                gv == group_views(self.workspaces@),
                first_match(all_tasks(gv.take(i as int)), task_has_id(task_id@)) is None,
            decreases self.workspaces.len() - i,
        {
            proof {
                lemma_all_tasks_take_step(gv, i as int);
            }
            let ghost pre = all_tasks(gv.take(i as int));
            let ghost cur = all_tasks(gv.take(i + 1));
            match find_task(&self.workspaces[i].tasks, task_id) {
                Some(j) => {
                    proof {
                        lemma_first_match_props(gv[i as int].tasks, task_has_id(task_id@));
                        lemma_first_match_prefix_concat(pre, gv[i as int].tasks, task_has_id(task_id@));
                        assert(first_match(cur, task_has_id(task_id@)) == Some(pre.len() + j));
                        lemma_all_tasks_prefix(gv, i + 1);
                        lemma_first_match_prefix_concat(cur, all_tasks(gv.skip(i + 1)), task_has_id(task_id@));
                        assert(all_tasks(gv)[pre.len() + j] == cur[pre.len() + j]);
                        assert(cur[pre.len() + j] == gv[i as int].tasks[j as int]);
                    }
                    return clone_opt(&self.workspaces[i].tasks[j].session_id);
                },
                None => {
                    proof {
                        lemma_first_match_prefix_concat(pre, gv[i as int].tasks, task_has_id(task_id@));
                    }
                },
            }
            i = i + 1;
        }
        assert(gv.take(i as int) =~= gv);
        None
    }
}

/// The first match in `a + b`, given the first matches of `a` and of `b`.
proof fn lemma_first_match_prefix_concat<A>(a: Seq<A>, b: Seq<A>, p: spec_fn(A) -> bool)
    ensures
        first_match(a + b, p) == (match first_match(a, p) {
            Some(k) => Some(k),
            None => match first_match(b, p) {
                Some(k) => Some(a.len() + k),
                None => None,
            },
        }),
    decreases b.len(),
{
    if b.len() == 0 {
        assert(a + b =~= a);
    } else {
        lemma_first_match_prefix_concat(a, b.drop_last(), p);
        assert((a + b).drop_last() =~= a + b.drop_last());
    }
}

/// The tasks of a prefix of the groups are a prefix of all tasks.
proof fn lemma_all_tasks_prefix(ws: Seq<GroupView>, i: int)
    requires
        0 <= i <= ws.len(),
    ensures
        all_tasks(ws.take(i)).len() <= all_tasks(ws).len(),
        all_tasks(ws) == all_tasks(ws.take(i)) + all_tasks(ws.skip(i)),
    decreases ws.len() - i,
{
    if i == ws.len() {
        assert(ws.take(i) =~= ws);
        assert(ws.skip(i) =~= Seq::<GroupView>::empty());
        assert(all_tasks(ws) + Seq::<TaskView>::empty() =~= all_tasks(ws));
    } else {
        lemma_all_tasks_prefix(ws, i + 1);
        lemma_all_tasks_take_step(ws, i);
        lemma_all_tasks_cons(ws.skip(i));
        assert(ws.skip(i).drop_first() =~= ws.skip(i + 1));
        assert(ws.skip(i)[0] == ws[i]);
        assert(all_tasks(ws.take(i)) + ws[i].tasks + all_tasks(ws.skip(i + 1)) =~= all_tasks(ws.take(i)) + (ws[i].tasks + all_tasks(ws.skip(i + 1))));
    }
}

/// All tasks of a non-empty list of groups: the first group's tasks, then the rest.
proof fn lemma_all_tasks_cons(ws: Seq<GroupView>)
    requires
        ws.len() > 0,
    ensures
        all_tasks(ws) == ws[0].tasks + all_tasks(ws.drop_first()),
    decreases ws.len(),
{
    if ws.len() == 1 {
        assert(ws.drop_first() =~= Seq::<GroupView>::empty());
        assert(ws.drop_last() =~= Seq::<GroupView>::empty());
        assert(Seq::<TaskView>::empty() + ws[0].tasks =~= ws[0].tasks + Seq::<TaskView>::empty());
    } else {
        lemma_all_tasks_cons(ws.drop_last());
        assert(ws.drop_last().drop_first() =~= ws.drop_first().drop_last());
        assert(ws.drop_first().last() == ws.last());
        assert(ws.drop_last()[0] == ws[0]);
        assert(ws[0].tasks + all_tasks(ws.drop_first().drop_last()) + ws.last().tasks =~= ws[0].tasks + (all_tasks(ws.drop_first().drop_last()) + ws.last().tasks));
    }
}

} // verus!

verus! {

// ---------------------------------------------------------------------------
// Selection, view mode and clicks
// ---------------------------------------------------------------------------

/// `x + 1`, wrapping to 0 after the largest value.
pub open spec fn next_generation(x: u64) -> u64 {
    if x == u64::MAX {
        0
    } else {
        (x + 1) as u64
    }
}

/// `x + 1`, wrapping to 0 after the largest value.
pub fn bump(x: u64) -> (r: u64)
    ensures
        r == next_generation(x),
{
    if x == u64::MAX {
        0
    } else {
        x + 1
    }
}

/// What a click on a task leads to.
#[derive(PartialEq, Eq, Structural, Clone, Copy, Debug)]
pub enum ClickAction {
    /// A custom focus handler decides.
    CustomHandler,
    /// Open the task's conversation in a new panel.
    OpenInNewPanel,
    /// Open the task's conversation in the current panel once the double-click delay
    /// has passed, unless a newer click came (the generation tells).
    ScheduleSingleClick(u64),
}

impl TaskPanelState {
    /// Selects task `task_id`.
    pub fn select_task(&mut self, task_id: String)
        ensures
            final(self).selected_task_id == Some(task_id),
            final(self).workspaces == old(self).workspaces,
            same_panel_except_groups(*final(self), *old(self)),
    {
        self.selected_task_id = Some(task_id);
    }

    /// Sets the selection from outside.
    pub fn set_selected_task(&mut self, task_id: Option<String>)
        ensures
            final(self).selected_task_id == task_id,
            final(self).workspaces == old(self).workspaces,
            same_panel_except_groups(*final(self), *old(self)),
    {
        self.selected_task_id = task_id;
    }

    /// The selected task's id.
    pub fn selected_task(&self) -> (r: Option<&str>)
        ensures
            match r {
                Some(s) => opt_view(self.selected_task_id) == Some(s@),
                None => self.selected_task_id is None,
            },
    {
        match &self.selected_task_id {
            Some(s) => Some(s.as_str()),
            None => None,
        }
    }

    /// Switches between tree and timeline view.
    pub fn set_view_mode(&mut self, mode: ViewMode)
        ensures
            final(self).view_mode == mode,
            final(self).workspaces == old(self).workspaces,
            final(self).selected_task_id == old(self).selected_task_id,
            final(self).load_generation == old(self).load_generation,
            final(self).pending_click_generation == old(self).pending_click_generation,
            final(self).last_click_task_id == old(self).last_click_task_id,
            final(self).is_loading == old(self).is_loading,
    {
        self.view_mode = mode;
    }

    /// Handles a click on task `task_id`: selects it and decides what opens. A second
    /// click on the same task opens it in a new panel; a single click is delayed so a
    /// double click can preempt it.
    pub fn handle_task_click(
        &mut self,
        task_id: &str,
        click_count: usize,
        has_custom_handler: bool,
    ) -> (r: ClickAction)
        ensures
            opt_view(final(self).selected_task_id) == Some(task_id@),
            opt_view(final(self).last_click_task_id) == Some(task_id@),
            final(self).workspaces == old(self).workspaces,
            final(self).view_mode == old(self).view_mode,
            final(self).load_generation == old(self).load_generation,
            final(self).is_loading == old(self).is_loading,
            ({
                let same = opt_view(old(self).last_click_task_id) == Some(task_id@);
                if has_custom_handler {
                    r == ClickAction::CustomHandler && final(self).pending_click_generation
                        == old(self).pending_click_generation
                } else if click_count >= 2 && same {
                    r == ClickAction::OpenInNewPanel && final(self).pending_click_generation
                        == next_generation(old(self).pending_click_generation)
                } else {
                    final(self).pending_click_generation == next_generation(
                        old(self).pending_click_generation,
                    ) && r == ClickAction::ScheduleSingleClick(final(self).pending_click_generation)
                }
            }),
    {
        let same = match &self.last_click_task_id {
            Some(s) => str_eq(s.as_str(), task_id),
            None => false,
        };
        self.last_click_task_id = Some(string_of(task_id));
        self.selected_task_id = Some(string_of(task_id));
        if has_custom_handler {
            return ClickAction::CustomHandler;
        }
        if click_count >= 2 && same {
            self.pending_click_generation = bump(self.pending_click_generation);
            return ClickAction::OpenInNewPanel;
        }
        self.pending_click_generation = bump(self.pending_click_generation);
        ClickAction::ScheduleSingleClick(self.pending_click_generation)
    }

    /// Whether a delayed single click of the given generation is still the latest click.
    pub fn single_click_is_current(&self, generation: u64) -> (r: bool)
        ensures
            r == (self.pending_click_generation == generation),
    {
        self.pending_click_generation == generation
    }

    /// Starts a full reload and returns its generation.
    pub fn begin_load(&mut self) -> (generation: u64)
        ensures
            generation == next_generation(old(self).load_generation),
            final(self).load_generation == generation,
            final(self).is_loading,
            final(self).workspaces == old(self).workspaces,
            final(self).selected_task_id == old(self).selected_task_id,
            final(self).view_mode == old(self).view_mode,
            final(self).pending_click_generation == old(self).pending_click_generation,
            final(self).last_click_task_id == old(self).last_click_task_id,
    {
        self.load_generation = bump(self.load_generation);
        self.is_loading = true;
        self.load_generation
    }
}

} // verus!

verus! {

// ---------------------------------------------------------------------------
// Full reload
// ---------------------------------------------------------------------------

/// A workspace as the workspace service lists it.
pub struct WorkspaceInfo {
    pub id: String,
    pub name: String,
    pub path: String,
}

/// The abstract value of a `WorkspaceInfo`.
pub struct WorkspaceInfoView {
    pub id: Seq<char>,
    pub name: Seq<char>,
    pub path: Seq<char>,
}

impl View for WorkspaceInfo {
    type V = WorkspaceInfoView;

    open spec fn view(&self) -> WorkspaceInfoView {
        WorkspaceInfoView { id: self.id@, name: self.name@, path: self.path@ }
    }
}

/// The views of a list of workspaces.
pub open spec fn info_views(s: Seq<WorkspaceInfo>) -> Seq<WorkspaceInfoView> {
    s.map_values(|w: WorkspaceInfo| w@)
}

/// Tasks of workspace `id`.
pub open spec fn in_workspace(id: Seq<char>) -> spec_fn(TaskView) -> bool {
    |t: TaskView| t.workspace_id == id
}

/// Position of the last group with id `id`.
pub open spec fn last_group_index(ws: Seq<GroupView>, id: Seq<char>) -> Option<int>
    decreases ws.len(),
{
    if ws.len() == 0 {
        None
    } else if ws.last().id == id {
        Some(ws.len() - 1)
    } else {
        last_group_index(ws.drop_last(), id)
    }
}

/// Whether workspace `id` was expanded before the reload (the last group with that id
/// decides); new workspaces start expanded.
pub open spec fn was_expanded(prev: Seq<GroupView>, id: Seq<char>) -> bool {
    match last_group_index(prev, id) {
        Some(k) => prev[k].is_expanded,
        None => true,
    }
}

/// Workspace number `i` of the list appeared earlier in it.
pub open spec fn listed_before(list: Seq<WorkspaceInfoView>, i: int) -> bool {
    exists|j: int| 0 <= j < i && #[trigger] list[j].id == list[i].id
}

/// The group shown for workspace number `i` after a reload: it takes every task of its
/// workspace, in order, unless the same workspace was listed earlier (which took them).
pub open spec fn loaded_group(
    list: Seq<WorkspaceInfoView>,
    tasks: Seq<TaskView>,
    prev: Seq<GroupView>,
    i: int,
) -> GroupView {
    GroupView {
        id: list[i].id,
        name: list[i].name,
        path: list[i].path,
        tasks: if listed_before(list, i) {
            Seq::empty()
        } else {
            tasks.filter(in_workspace(list[i].id))
        },
        is_expanded: was_expanded(prev, list[i].id),
    }
}

/// The groups after a reload.
pub open spec fn loaded_groups(
    list: Seq<WorkspaceInfoView>,
    tasks: Seq<TaskView>,
    prev: Seq<GroupView>,
) -> Seq<GroupView> {
    Seq::new(list.len(), |i: int| loaded_group(list, tasks, prev, i))
}

proof fn lemma_last_group_index_take_step(ws: Seq<GroupView>, id: Seq<char>, k: int)
    requires
        0 <= k < ws.len(),
    ensures
        last_group_index(ws.take(k + 1), id) == (if ws[k].id == id {
            Some(k)
        } else {
            last_group_index(ws.take(k), id)
        }),
{
    assert(ws.take(k + 1).drop_last() =~= ws.take(k));
}

proof fn lemma_last_group_index_bounds(ws: Seq<GroupView>, id: Seq<char>)
    ensures
        last_group_index(ws, id) matches Some(k) ==> 0 <= k < ws.len(),
    decreases ws.len(),
{
    if ws.len() > 0 {
        lemma_last_group_index_bounds(ws.drop_last(), id);
    }
}

/// Whether workspace `id` was expanded before the reload.
pub fn previously_expanded(prev: &Vec<WorkspaceGroup>, id: &str) -> (r: bool)
    ensures
        r == was_expanded(group_views(prev@), id@),
{
    let ghost gv = group_views(prev@);
    let mut r: bool = true;
    let mut found = false;
    let mut k: usize = 0;
    assert(gv.take(0) =~= Seq::<GroupView>::empty());
    while k < prev.len()
        invariant
            k <= prev.len(),
            gv == group_views(prev@),
            found == (last_group_index(gv.take(k as int), id@) is Some),
            found ==> r == gv[last_group_index(gv.take(k as int), id@)->0].is_expanded,
            !found ==> r,
            found ==> last_group_index(gv.take(k as int), id@)->0 < k,
        decreases prev.len() - k,
    {
        proof {
            lemma_last_group_index_take_step(gv, id@, k as int);
        }
        if str_eq(prev[k].id.as_str(), id) {
            r = prev[k].is_expanded;
            found = true;
        }
        k = k + 1;
    }
    assert(gv.take(k as int) =~= gv);
    proof {
        lemma_last_group_index_bounds(gv, id@);
    }
    r
}

/// The tasks of workspace `id`, in order.
pub fn tasks_of_workspace(tasks: &Vec<WorkspaceTask>, id: &str) -> (r: Vec<WorkspaceTask>)
    ensures
        task_views(r@) == task_views(tasks@).filter(in_workspace(id@)),
{
    let ghost tv = task_views(tasks@);
    let mut r: Vec<WorkspaceTask> = Vec::new();
    let mut i: usize = 0;
    assert(tv.take(0) =~= Seq::<TaskView>::empty());
    reveal(Seq::filter);
    while i < tasks.len()
        invariant
            i <= tasks.len(),
            tv == task_views(tasks@),
            task_views(r@) == tv.take(i as int).filter(in_workspace(id@)),
        decreases tasks.len() - i,
    {
        proof {
            crate::seqs::lemma_filter_take_step(tv, in_workspace(id@), i as int);
        }
        if str_eq(tasks[i].workspace_id.as_str(), id) {
            let ghost before = r@;
            r.push(clone_task(&tasks[i]));
            assert(task_views(r@) =~= task_views(before).push(tv[i as int]));
        }
        i = i + 1;
    }
    assert(tv.take(i as int) =~= tv);
    r
}

/// Whether workspace number `i` of the list appeared earlier in it.
pub fn is_listed_before(list: &Vec<WorkspaceInfo>, i: usize) -> (r: bool)
    requires
        i < list.len(),
    ensures
        r == listed_before(info_views(list@), i as int),
{
    let ghost lv = info_views(list@);
    let mut j: usize = 0;
    while j < i
        invariant
            i < list.len(),
            j <= i,
            lv == info_views(list@),
            forall|m: int| 0 <= m < j ==> lv[m].id != lv[i as int].id,
        decreases i - j,
    {
        if str_eq(list[j].id.as_str(), list[i].id.as_str()) {
            assert(lv[j as int].id == lv[i as int].id);
            return true;
        }
        j = j + 1;
    }
    false
}

impl TaskPanelState {
    /// Applies the result of reload number `generation`, unless a newer reload started:
    /// the workspaces are rebuilt from the lists, keeping which were expanded, and the
    /// selection is made valid. Returns whether the result was applied.
    pub fn finish_load(
        &mut self,
        generation: u64,
        list: Vec<WorkspaceInfo>,
        tasks: Vec<WorkspaceTask>,
    ) -> (applied: bool)
        ensures
            applied == (generation == old(self).load_generation),
            applied ==> group_views(final(self).workspaces@) == loaded_groups(
                info_views(list@),
                task_views(tasks@),
                group_views(old(self).workspaces@),
            ),
            applied ==> opt_view(final(self).selected_task_id) == valid_selection(
                group_views(final(self).workspaces@),
                opt_view(old(self).selected_task_id),
            ),
            applied ==> !final(self).is_loading,
            !applied ==> *final(self) == *old(self),
            final(self).view_mode == old(self).view_mode,
            final(self).load_generation == old(self).load_generation,
            final(self).pending_click_generation == old(self).pending_click_generation,
            final(self).last_click_task_id == old(self).last_click_task_id,
    {
        if self.load_generation != generation {
            return false;
        }
        let ghost lv = info_views(list@);
        let ghost tv = task_views(tasks@);
        let ghost prev = group_views(self.workspaces@);
        let mut groups: Vec<WorkspaceGroup> = Vec::new();
        let mut i: usize = 0;
        while i < list.len()
            invariant
                i <= list.len(),
                lv == info_views(list@),
                tv == task_views(tasks@),
                prev == group_views(self.workspaces@),
                groups@.len() == i,
                forall|k: int| 0 <= k < i ==> #[trigger] group_views(groups@)[k] == loaded_group(lv, tv, prev, k),
            decreases list.len() - i,
        {
            let group_tasks = if is_listed_before(&list, i) {
                Vec::new()
            } else {
                tasks_of_workspace(&tasks, list[i].id.as_str())
            };
            let expanded = previously_expanded(&self.workspaces, list[i].id.as_str());
            let g = WorkspaceGroup {
                id: string_of(list[i].id.as_str()),
                name: string_of(list[i].name.as_str()),
                path: string_of(list[i].path.as_str()),
                tasks: group_tasks,
                is_expanded: expanded,
            };
            proof {
                if listed_before(lv, i as int) {
                    assert(task_views(g.tasks@) =~= Seq::<TaskView>::empty());
                }
                assert(g@ == loaded_group(lv, tv, prev, i as int));
            }
            let ghost before = groups@;
            groups.push(g);
            assert forall|k: int| 0 <= k < i + 1 implies #[trigger] group_views(groups@)[k] == loaded_group(lv, tv, prev, k) by {
                assert(group_views(groups@)[k] == groups@[k]@);
                if k < i {
                    assert(groups@[k] == before[k]);
                    assert(group_views(before)[k] == before[k]@);
                }
            }
            i = i + 1;
        }
        assert(group_views(groups@) =~= loaded_groups(lv, tv, prev));
        self.workspaces = groups;
        self.ensure_selected_task_valid();
        self.is_loading = false;
        true
    }
}

} // verus!

verus! {

// ---------------------------------------------------------------------------
// Search
// ---------------------------------------------------------------------------

/// Lowercased text `s` contains the (lowercase) query `q`.
pub open spec fn lower_contains(s: Seq<char>, q: Seq<char>) -> bool {
    crate::text::contains_seq(crate::text::lowercase(s), q)
}

/// A task matches the lowercase query `q` when its name, agent, mode or last message
/// contains it, ignoring case.
pub open spec fn task_matches(t: TaskView, q: Seq<char>) -> bool {
    ||| lower_contains(t.name, q)
    ||| lower_contains(t.agent_name, q)
    ||| lower_contains(t.mode, q)
    ||| (t.last_message matches Some(m) && lower_contains(m, q))
}

/// Tasks matching the lowercase query `q`.
pub open spec fn matching(q: Seq<char>) -> spec_fn(TaskView) -> bool {
    |t: TaskView| task_matches(t, q)
}

/// The groups shown for the lowercase, non-empty query `q`: each group with its matching
/// tasks, kept when some task matches or its name contains the query.
pub open spec fn search_groups(ws: Seq<GroupView>, q: Seq<char>) -> Seq<GroupView>
    decreases ws.len(),
{
    if ws.len() == 0 {
        Seq::empty()
    } else {
        let prev = search_groups(ws.drop_last(), q);
        let g = ws.last();
        let ft = g.tasks.filter(matching(q));
        if ft.len() > 0 || lower_contains(g.name, q) {
            prev.push(GroupView { tasks: ft, ..g })
        } else {
            prev
        }
    }
}

/// The groups shown for a search query: all of them for an empty query.
pub open spec fn filtered_workspaces(ws: Seq<GroupView>, query: Seq<char>) -> Seq<GroupView> {
    let q = crate::text::lowercase(query);
    if q.len() == 0 {
        ws
    } else {
        search_groups(ws, q)
    }
}

/// Whether lowercased `s` contains the lowercase query `q`.
pub fn lower_contains_exec(s: &str, q: &str) -> (r: bool)
    ensures
        r == lower_contains(s@, q@),
{
    let l = crate::text::to_lowercase(s);
    crate::text::contains(l.as_str(), q)
}

/// Whether task `t` matches the lowercase query `q`.
pub fn task_matches_query(t: &WorkspaceTask, q: &str) -> (r: bool)
    ensures
        r == task_matches(t@, q@),
{
    lower_contains_exec(t.name.as_str(), q) || lower_contains_exec(t.agent_name.as_str(), q)
        || lower_contains_exec(t.mode.as_str(), q) || match &t.last_message {
        Some(m) => lower_contains_exec(m.as_str(), q),
        None => false,
    }
}

proof fn lemma_search_groups_take_step(ws: Seq<GroupView>, q: Seq<char>, i: int)
    requires
        0 <= i < ws.len(),
    ensures
        search_groups(ws.take(i + 1), q) == ({
            let ft = ws[i].tasks.filter(matching(q));
            if ft.len() > 0 || lower_contains(ws[i].name, q) {
                search_groups(ws.take(i), q).push(GroupView { tasks: ft, ..ws[i] })
            } else {
                search_groups(ws.take(i), q)
            }
        }),
{
    assert(ws.take(i + 1).drop_last() =~= ws.take(i));
}

impl TaskPanelState {
    /// The workspaces shown for a search query.
    pub fn get_filtered_workspaces(&self, query: &str) -> (r: Vec<WorkspaceGroup>)
        ensures
            group_views(r@) == filtered_workspaces(group_views(self.workspaces@), query@),
    {
        let q = crate::text::to_lowercase(query);
        if q.as_str().is_empty() {
            return clone_groups(&self.workspaces);
        }
        let ghost gv = group_views(self.workspaces@);
        let ghost qv = q@;
        let mut r: Vec<WorkspaceGroup> = Vec::new();
        let mut i: usize = 0;
        assert(gv.take(0) =~= Seq::<GroupView>::empty());
        while i < self.workspaces.len()
            invariant
                i <= self.workspaces.len(),
                gv == group_views(self.workspaces@),
                qv == q@,
                group_views(r@) == search_groups(gv.take(i as int), qv),
            decreases self.workspaces.len() - i,
        {
            proof {
                lemma_search_groups_take_step(gv, qv, i as int);
            }
            let g = &self.workspaces[i];
            let ghost tv = g@.tasks;
            let mut ft: Vec<WorkspaceTask> = Vec::new();
            let mut j: usize = 0;
            assert(tv.take(0) =~= Seq::<TaskView>::empty());
            reveal(Seq::filter);
            while j < g.tasks.len()
                invariant
                    j <= g.tasks.len(),
                    tv == task_views(g.tasks@),
                    qv == q@,
                    task_views(ft@) == tv.take(j as int).filter(matching(qv)),
                decreases g.tasks.len() - j,
            {
                proof {
                    crate::seqs::lemma_filter_take_step(tv, matching(qv), j as int);
                }
                if task_matches_query(&g.tasks[j], q.as_str()) {
                    let ghost before = ft@;
                    ft.push(clone_task(&g.tasks[j]));
                    assert(task_views(ft@) =~= task_views(before).push(tv[j as int]));
                }
                j = j + 1;
            }
            assert(tv.take(j as int) =~= tv);
            if ft.len() > 0 || lower_contains_exec(g.name.as_str(), q.as_str()) {
                let ng = WorkspaceGroup {
                    id: string_of(g.id.as_str()),
                    name: string_of(g.name.as_str()),
                    path: string_of(g.path.as_str()),
                    tasks: ft,
                    is_expanded: g.is_expanded,
                };
                let ghost before = r@;
                let ghost ngv = ng@;
                r.push(ng);
                assert(group_views(r@) =~= group_views(before).push(ngv));
            }
            i = i + 1;
        }
        assert(gv.take(i as int) =~= gv);
        r
    }
}

// ---------------------------------------------------------------------------
// Ordering by creation time
// ---------------------------------------------------------------------------

/// Tasks created before `x`.
pub open spec fn older_than(x: TaskView) -> spec_fn(TaskView) -> bool {
    |t: TaskView| t.created_at < x.created_at
}

/// Where `x` goes in a newest-first list: after every task at least as new.
pub open spec fn insert_position(s: Seq<TaskView>, x: TaskView) -> int {
    match first_match(s, older_than(x)) {
        Some(k) => k,
        None => s.len() as int,
    }
}

/// `s` with `x` inserted after every task at least as new as it.
pub open spec fn insert_newest_first(s: Seq<TaskView>, x: TaskView) -> Seq<TaskView> {
    let k = insert_position(s, x);
    s.take(k).push(x) + s.skip(k)
}

/// `s` ordered newest first; tasks created at the same time keep their order.
pub open spec fn newest_first(s: Seq<TaskView>) -> Seq<TaskView>
    decreases s.len(),
{
    if s.len() == 0 {
        s
    } else {
        insert_newest_first(newest_first(s.drop_last()), s.last())
    }
}

/// Creation times do not increase along `s`.
pub open spec fn is_newest_first(s: Seq<TaskView>) -> bool {
    forall|i: int, j: int| 0 <= i < j < s.len() ==> #[trigger] s[i].created_at >= #[trigger] s[j].created_at
}

/// The tasks of `tasks`, newest first (tasks created at the same time keep their order).
pub fn sort_newest_first(tasks: &Vec<WorkspaceTask>) -> (r: Vec<WorkspaceTask>)
    ensures
        task_views(r@) == newest_first(task_views(tasks@)),
{
    let ghost tv = task_views(tasks@);
    let mut r: Vec<WorkspaceTask> = Vec::new();
    let mut i: usize = 0;
    assert(tv.take(0) =~= Seq::<TaskView>::empty());
    while i < tasks.len()
        invariant
            i <= tasks.len(),
            tv == task_views(tasks@),
            task_views(r@) == newest_first(tv.take(i as int)),
            r@.len() == i,
        decreases tasks.len() - i,
    {
        let x = clone_task(&tasks[i]);
        let ghost rv = task_views(r@);
        let ghost xv = x@;
        let mut k: usize = 0;
        assert(rv.take(0) =~= Seq::<TaskView>::empty());
        while k < r.len() && r[k].created_at >= x.created_at
            invariant
                k <= r.len(),
                rv == task_views(r@),
                xv == x@,
                first_match(rv.take(k as int), older_than(xv)) is None,
            decreases r.len() - k,
        {
            proof {
                crate::seqs::lemma_first_match_step(rv, older_than(xv), k as int);
            }
            k = k + 1;
        }
        proof {
            if k < r.len() {
                crate::seqs::lemma_first_match_step(rv, older_than(xv), k as int);
                crate::seqs::lemma_first_match_prefix(rv, older_than(xv), k + 1);
            } else {
                assert(rv.take(k as int) =~= rv);
            }
            assert(insert_position(rv, xv) == k);
        }
        r.insert(k, x);
        proof {
            assert(tv.take(i + 1).drop_last() =~= tv.take(i as int));
            assert(tv.take(i + 1).last() == tv[i as int]);
            assert(task_views(r@) =~= rv.take(k as int).push(xv) + rv.skip(k as int));
        }
        i = i + 1;
    }
    assert(tv.take(i as int) =~= tv);
    r
}

/// Every task of `s` at positions `0..k` is at least as new as `x`, and every later one older.
proof fn lemma_insert_position_split(s: Seq<TaskView>, x: TaskView)
    requires
        is_newest_first(s),
    ensures
        0 <= insert_position(s, x) <= s.len(),
        forall|i: int| 0 <= i < insert_position(s, x) ==> #[trigger] s[i].created_at >= x.created_at,
        forall|i: int| insert_position(s, x) <= i < s.len() ==> #[trigger] s[i].created_at < x.created_at,
{
    crate::seqs::lemma_first_match_props(s, older_than(x));
}

/// Ordering newest first gives a list whose creation times do not increase.
pub proof fn lemma_newest_first_sorted(s: Seq<TaskView>)
    ensures
        is_newest_first(newest_first(s)),
        newest_first(s).len() == s.len(),
    decreases s.len(),
{
    if s.len() > 0 {
        let p = newest_first(s.drop_last());
        lemma_newest_first_sorted(s.drop_last());
        let x = s.last();
        lemma_insert_position_split(p, x);
        let k = insert_position(p, x);
        let r = insert_newest_first(p, x);
        assert(r.len() == s.len());
        assert forall|i: int, j: int| 0 <= i < j < r.len() implies #[trigger] r[i].created_at >= #[trigger] r[j].created_at by {
            if i < k {
                if j < k {
                    assert(r[i] == p[i] && r[j] == p[j]);
                } else if j == k {
                    assert(r[i] == p[i] && r[j] == x);
                } else {
                    assert(r[i] == p[i] && r[j] == p[j - 1]);
                }
            } else if i == k {
                assert(r[i] == x && r[j] == p[j - 1]);
            } else {
                assert(r[i] == p[i - 1] && r[j] == p[j - 1]);
            }
        }
    }
}

} // verus!

verus! {

// ---------------------------------------------------------------------------
// Timeline
// ---------------------------------------------------------------------------

/// The tasks of all groups, group after group.
pub fn collect_all_tasks(ws: &Vec<WorkspaceGroup>) -> (r: Vec<WorkspaceTask>)
    ensures
        task_views(r@) == all_tasks(group_views(ws@)),
{
    let ghost gv = group_views(ws@);
    let mut r: Vec<WorkspaceTask> = Vec::new();
    let mut i: usize = 0;
    assert(gv.take(0) =~= Seq::<GroupView>::empty());
    while i < ws.len()
        invariant
            i <= ws.len(),
            gv == group_views(ws@),
            task_views(r@) == all_tasks(gv.take(i as int)),
        decreases ws.len() - i,
    {
        proof {
            lemma_all_tasks_take_step(gv, i as int);
        }
        let ghost pre = task_views(r@);
        let mut j: usize = 0;
        assert(gv[i as int].tasks.take(0) =~= Seq::<TaskView>::empty());
        assert(pre + gv[i as int].tasks.take(0) =~= pre);
        while j < ws[i].tasks.len()
            invariant
                i < ws.len(),
                j <= ws@[i as int].tasks@.len(),
                gv == group_views(ws@),
                task_views(r@) == pre + gv[i as int].tasks.take(j as int),
            decreases ws@[i as int].tasks@.len() - j,
        {
            let ghost before = r@;
            assert(gv[i as int] == ws@[i as int]@);
            assert(gv[i as int].tasks[j as int] == ws@[i as int].tasks@[j as int]@);
            r.push(clone_task(&ws[i].tasks[j]));
            assert(task_views(r@) =~= task_views(before).push(gv[i as int].tasks[j as int]));
            assert(task_views(r@) =~= pre + gv[i as int].tasks.take(j + 1));
            j = j + 1;
        }
        assert(gv[i as int].tasks.take(j as int) =~= gv[i as int].tasks);
        i = i + 1;
    }
    assert(gv.take(i as int) =~= gv);
    r
}

/// The tasks of the timeline: all tasks of the given groups, newest first.
pub fn timeline_tasks(ws: &Vec<WorkspaceGroup>) -> (r: Vec<WorkspaceTask>)
    ensures
        task_views(r@) == newest_first(all_tasks(group_views(ws@))),
{
    let all = collect_all_tasks(ws);
    sort_newest_first(&all)
}

/// Positions `k` of `days` whose day falls in timeline group `g`, in order.
pub open spec fn day_positions(days: Seq<i64>, today: i64, g: crate::relative_time::DayGroup) -> Seq<int>
    decreases days.len(),
{
    if days.len() == 0 {
        Seq::empty()
    } else {
        let prev = day_positions(days.drop_last(), today, g);
        if crate::relative_time::day_group_of(days.last() as int, today as int) == g {
            prev.push(days.len() - 1)
        } else {
            prev
        }
    }
}

/// Splits the timeline by day: positions of the tasks created today, yesterday, and
/// earlier, given each task's local creation day and today's.
pub fn split_by_day(days: &Vec<i64>, today: i64) -> (r: (Vec<usize>, Vec<usize>, Vec<usize>))
    ensures
        r.0@.map_values(|k: usize| k as int) == day_positions(days@, today, crate::relative_time::DayGroup::Today),
        r.1@.map_values(|k: usize| k as int) == day_positions(days@, today, crate::relative_time::DayGroup::Yesterday),
        r.2@.map_values(|k: usize| k as int) == day_positions(days@, today, crate::relative_time::DayGroup::Older),
{
    let mut a: Vec<usize> = Vec::new();
    let mut b: Vec<usize> = Vec::new();
    let mut c: Vec<usize> = Vec::new();
    let mut i: usize = 0;
    assert(days@.take(0) =~= Seq::<i64>::empty());
    while i < days.len()
        invariant
            i <= days.len(),
            a@.map_values(|k: usize| k as int) == day_positions(days@.take(i as int), today, crate::relative_time::DayGroup::Today),
            b@.map_values(|k: usize| k as int) == day_positions(days@.take(i as int), today, crate::relative_time::DayGroup::Yesterday),
            c@.map_values(|k: usize| k as int) == day_positions(days@.take(i as int), today, crate::relative_time::DayGroup::Older),
        decreases days.len() - i,
    {
        assert(days@.take(i + 1).drop_last() =~= days@.take(i as int));
        assert(days@.take(i + 1).last() == days@[i as int]);
        let g = crate::relative_time::day_group(days[i], today);
        let ghost (a0, b0, c0) = (a@, b@, c@);
        match g {
            crate::relative_time::DayGroup::Today => {
                a.push(i);
            },
            crate::relative_time::DayGroup::Yesterday => {
                b.push(i);
            },
            crate::relative_time::DayGroup::Older => {
                c.push(i);
            },
            crate::relative_time::DayGroup::Future => {},
        }
        assert(a@.map_values(|k: usize| k as int) =~= day_positions(days@.take(i + 1), today, crate::relative_time::DayGroup::Today));
        assert(b@.map_values(|k: usize| k as int) =~= day_positions(days@.take(i + 1), today, crate::relative_time::DayGroup::Yesterday));
        assert(c@.map_values(|k: usize| k as int) =~= day_positions(days@.take(i + 1), today, crate::relative_time::DayGroup::Older));
        i = i + 1;
    }
    assert(days@.take(i as int) =~= days@);
    (a, b, c)
}

} // verus!

verus! {

// ---------------------------------------------------------------------------
// Laws
// ---------------------------------------------------------------------------

/// Toggling the same workspace twice gives back the groups as they were.
pub proof fn lemma_toggle_twice(ws: Seq<GroupView>, id: Seq<char>)
    ensures
        toggled(toggled(ws, id), id) == ws,
{
    lemma_first_match_props(ws, group_has_id(id));
    match first_match(ws, group_has_id(id)) {
        Some(k) => {
            let t = toggled(ws, id);
            assert forall|j: int| 0 <= j < t.len() implies (group_has_id(id))(#[trigger] t[j])
                == (group_has_id(id))(ws[j]) by {
            }
            lemma_first_match_same(ws, t, group_has_id(id));
            assert(toggled(t, id) =~= ws);
        },
        None => {},
    }
}

/// Two sequences that agree on a predicate everywhere have the same first match.
proof fn lemma_first_match_same<A>(a: Seq<A>, b: Seq<A>, p: spec_fn(A) -> bool)
    requires
        a.len() == b.len(),
        forall|j: int| 0 <= j < b.len() ==> p(#[trigger] b[j]) == p(a[j]),
    ensures
        first_match(a, p) == first_match(b, p),
{
    lemma_first_match_props(a, p);
    lemma_first_match_props(b, p);
    match (first_match(a, p), first_match(b, p)) {
        (Some(i), Some(j)) => {
            if i < j {
                assert(p(b[i]));
            } else if j < i {
                assert(p(a[j]));
            }
        },
        (Some(i), None) => {
            assert(p(b[i]));
        },
        (None, Some(j)) => {
            assert(p(a[j]));
        },
        (None, None) => {},
    }
}

/// The selection that `valid_selection` gives names an existing task, and is empty only
/// when there are no tasks at all.
pub proof fn lemma_valid_selection_exists(ws: Seq<GroupView>, selected: Option<Seq<char>>)
    ensures
        valid_selection(ws, selected) matches Some(id) ==> has_task(ws, id),
        valid_selection(ws, selected) is None <==> all_tasks(ws).len() == 0,
{
    if !(selected is Some && has_task(ws, selected->0)) && all_tasks(ws).len() > 0 {
        assert(all_tasks(ws)[0].id == all_tasks(ws)[0].id);
    }
}

/// Setting the same status for a session twice changes nothing the second time.
pub proof fn lemma_status_update_idempotent(ws: Seq<GroupView>, sid: Seq<char>, st: SessionStatus)
    ensures
        groups_with_status(groups_with_status(ws, sid, st), sid, st) == groups_with_status(ws, sid, st),
        last_changed(all_tasks(groups_with_status(ws, sid, st)), sid, st) is None,
{
    let once = groups_with_status(ws, sid, st);
    assert forall|g: int| 0 <= g < ws.len() implies #[trigger] groups_with_status(once, sid, st)[g]
        == once[g] by {
        assert(once[g].tasks.map_values(|t: TaskView| with_status(t, sid, st)) =~= once[g].tasks);
    }
    assert(groups_with_status(once, sid, st) =~= once);
    lemma_no_change_after_status(once, sid, st);
}

proof fn lemma_no_change_after_status(ws: Seq<GroupView>, sid: Seq<char>, st: SessionStatus)
    requires
        forall|g: int, k: int| 0 <= g < ws.len() && 0 <= k < ws[g].tasks.len()
            ==> !status_changes(#[trigger] ws[g].tasks[k], sid, st),
    ensures
        last_changed(all_tasks(ws), sid, st) is None,
    decreases ws.len(),
{
    if ws.len() > 0 {
        let before = ws.drop_last();
        assert forall|g: int, k: int| 0 <= g < before.len() && 0 <= k < before[g].tasks.len()
            implies !status_changes(#[trigger] before[g].tasks[k], sid, st) by {
            assert(before[g] == ws[g]);
        }
        lemma_no_change_after_status(before, sid, st);
        lemma_last_changed_none_append(all_tasks(before), ws.last().tasks, sid, st);
    }
}

proof fn lemma_last_changed_none_append(a: Seq<TaskView>, b: Seq<TaskView>, sid: Seq<char>, st: SessionStatus)
    requires
        last_changed(a, sid, st) is None,
        forall|k: int| 0 <= k < b.len() ==> !status_changes(#[trigger] b[k], sid, st),
    ensures
        last_changed(a + b, sid, st) is None,
    decreases b.len(),
{
    if b.len() > 0 {
        lemma_last_changed_none_append(a, b.drop_last(), sid, st);
        assert((a + b).drop_last() =~= a + b.drop_last());
        lemma_last_changed_push(a + b.drop_last(), b.last(), sid, st);
        assert(a + b =~= (a + b.drop_last()).push(b.last()));
    }
}

/// Ordering newest first keeps every task: the result holds the same tasks, as often.
pub proof fn lemma_newest_first_keeps_tasks(s: Seq<TaskView>)
    ensures
        newest_first(s).to_multiset() == s.to_multiset(),
    decreases s.len(),
{
    broadcast use vstd::seq_lib::group_to_multiset_ensures;
    if s.len() > 0 {
        let rest = newest_first(s.drop_last());
        lemma_newest_first_keeps_tasks(s.drop_last());
        let k = insert_position(rest, s.last());
        crate::seqs::lemma_first_match_props(rest, older_than(s.last()));
        let ins = rest.take(k).push(s.last()) + rest.skip(k);
        assert(rest =~= rest.take(k) + rest.skip(k));
        vstd::seq_lib::lemma_multiset_commutative(rest.take(k).push(s.last()), rest.skip(k));
        vstd::seq_lib::lemma_multiset_commutative(rest.take(k), rest.skip(k));
        assert(s =~= s.drop_last().push(s.last()));
    }
}

/// A newer click makes a single click that is still waiting stale.
pub proof fn lemma_newer_click_supersedes(generation: u64)
    ensures
        next_generation(generation) != generation,
{
}

} // verus!

verus! {

proof fn lemma_search_groups_keeps(ws: Seq<GroupView>, q: Seq<char>, i: int, k: int)
    requires
        0 <= i < ws.len(),
        0 <= k < ws[i].tasks.len(),
        task_matches(ws[i].tasks[k], q),
    ensures
        exists|j: int|
            0 <= j < search_groups(ws, q).len() && #[trigger] search_groups(ws, q)[j].id == ws[i].id
                && search_groups(ws, q)[j].tasks.contains(ws[i].tasks[k]),
    decreases ws.len(),
{
    let prev = search_groups(ws.drop_last(), q);
    let g = ws.last();
    let ft = g.tasks.filter(matching(q));
    if i == ws.len() - 1 {
        ws[i].tasks.lemma_filter_contains(matching(q), k);
        assert(ft.contains(ws[i].tasks[k]));
        assert(ft.len() > 0);
        let r = search_groups(ws, q);
        assert(r == prev.push(GroupView { tasks: ft, ..g }));
        assert(r[prev.len() as int].id == ws[i].id);
    } else {
        lemma_search_groups_keeps(ws.drop_last(), q, i, k);
        assert(ws.drop_last()[i] == ws[i]);
        let j = choose|j: int|
            0 <= j < prev.len() && #[trigger] prev[j].id == ws[i].id && prev[j].tasks.contains(ws[i].tasks[k]);
        assert(search_groups(ws, q)[j] == prev[j]);
    }
}

proof fn lemma_search_groups_only_matching(ws: Seq<GroupView>, q: Seq<char>, j: int, k: int)
    requires
        0 <= j < search_groups(ws, q).len(),
        0 <= k < search_groups(ws, q)[j].tasks.len(),
    ensures
        task_matches(search_groups(ws, q)[j].tasks[k], q),
    decreases ws.len(),
{
    let prev = search_groups(ws.drop_last(), q);
    let g = ws.last();
    let ft = g.tasks.filter(matching(q));
    if j < prev.len() {
        assert(search_groups(ws, q)[j] == prev[j]);
        lemma_search_groups_only_matching(ws.drop_last(), q, j, k);
    } else {
        assert(search_groups(ws, q)[j].tasks == ft);
        g.tasks.lemma_filter_pred(matching(q), k);
    }
}

/// The search keeps every task whose name, agent name, mode or last message contains the
/// query, ignoring case, in the result for its workspace; and every task it shows is such a
/// task.
pub proof fn lemma_search_matches_tasks(ws: Seq<GroupView>, query: Seq<char>)
    requires
        crate::text::lowercase(query).len() > 0,
    ensures
        forall|i: int, k: int|
            #![trigger ws[i].tasks[k]]
            0 <= i < ws.len() && 0 <= k < ws[i].tasks.len() && ({
                let t = ws[i].tasks[k];
                let q = crate::text::lowercase(query);
                ||| crate::text::contains_seq(crate::text::lowercase(t.name), q)
                ||| crate::text::contains_seq(crate::text::lowercase(t.agent_name), q)
                ||| crate::text::contains_seq(crate::text::lowercase(t.mode), q)
                ||| (t.last_message matches Some(m) && crate::text::contains_seq(crate::text::lowercase(m), q))
            }) ==> exists|j: int|
                0 <= j < filtered_workspaces(ws, query).len() && #[trigger] filtered_workspaces(ws, query)[j].id
                    == ws[i].id && filtered_workspaces(ws, query)[j].tasks.contains(ws[i].tasks[k]),
        forall|j: int, k: int|
            0 <= j < filtered_workspaces(ws, query).len() && 0 <= k < filtered_workspaces(ws, query)[j].tasks.len()
                ==> ({
                let t = #[trigger] filtered_workspaces(ws, query)[j].tasks[k];
                let q = crate::text::lowercase(query);
                ||| crate::text::contains_seq(crate::text::lowercase(t.name), q)
                ||| crate::text::contains_seq(crate::text::lowercase(t.agent_name), q)
                ||| crate::text::contains_seq(crate::text::lowercase(t.mode), q)
                ||| (t.last_message matches Some(m) && crate::text::contains_seq(crate::text::lowercase(m), q))
            }),
{
    let q = crate::text::lowercase(query);
    assert forall|i: int, k: int|
        #![trigger ws[i].tasks[k]]
        0 <= i < ws.len() && 0 <= k < ws[i].tasks.len() && ({
            let t = ws[i].tasks[k];
            ||| crate::text::contains_seq(crate::text::lowercase(t.name), q)
            ||| crate::text::contains_seq(crate::text::lowercase(t.agent_name), q)
            ||| crate::text::contains_seq(crate::text::lowercase(t.mode), q)
            ||| (t.last_message matches Some(m) && crate::text::contains_seq(crate::text::lowercase(m), q))
        }) implies exists|j: int|
            0 <= j < filtered_workspaces(ws, query).len() && #[trigger] filtered_workspaces(ws, query)[j].id
                == ws[i].id && filtered_workspaces(ws, query)[j].tasks.contains(ws[i].tasks[k]) by {
        lemma_search_groups_keeps(ws, q, i, k);
    }
    assert forall|j: int, k: int|
        0 <= j < filtered_workspaces(ws, query).len() && 0 <= k < filtered_workspaces(ws, query)[j].tasks.len()
            implies ({
            let t = #[trigger] filtered_workspaces(ws, query)[j].tasks[k];
            ||| crate::text::contains_seq(crate::text::lowercase(t.name), q)
            ||| crate::text::contains_seq(crate::text::lowercase(t.agent_name), q)
            ||| crate::text::contains_seq(crate::text::lowercase(t.mode), q)
            ||| (t.last_message matches Some(m) && crate::text::contains_seq(crate::text::lowercase(m), q))
        }) by {
        lemma_search_groups_only_matching(ws, q, j, k);
    }
}

} // verus!
