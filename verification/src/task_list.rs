//! The task list: tasks grouped into sections by type, filtered by a search query, with
//! message previews as subtitles.
use vstd::prelude::*;
use crate::content::{clone_opt, is_utf8_boundary, opt_view, utf8_len, utf8_prefix, utf8_truncate};
use crate::seqs::{first_match, lemma_first_match_prefix, lemma_first_match_props, lemma_first_match_step};
use crate::text::{concat2, contains, contains_seq, lowercase, str_eq, string_of, to_lowercase};

verus! {

/// A task of the task list.
pub struct AgentTask {
    pub name: String,
    pub task_type: String,
    pub session_id: Option<String>,
    pub subtitle: Option<String>,
}

/// The abstract value of a task.
pub struct AgentTaskView {
    pub name: Seq<char>,
    pub task_type: Seq<char>,
    pub session_id: Option<Seq<char>>,
    pub subtitle: Option<Seq<char>>,
}

impl View for AgentTask {
    type V = AgentTaskView;

    open spec fn view(&self) -> AgentTaskView {
        AgentTaskView {
            name: self.name@,
            task_type: self.task_type@,
            session_id: opt_view(self.session_id),
            subtitle: opt_view(self.subtitle),
        }
    }
}

/// The views of tasks.
pub open spec fn agent_task_views(v: Seq<AgentTask>) -> Seq<AgentTaskView> {
    v.map_values(|t: AgentTask| t@)
}

/// The views of sections of tasks.
pub open spec fn section_views(v: Seq<Vec<AgentTask>>) -> Seq<Seq<AgentTaskView>> {
    v.map_values(|s: Vec<AgentTask>| agent_task_views(s@))
}

/// The views of section titles.
pub open spec fn title_views(v: Seq<String>) -> Seq<Seq<char>> {
    v.map_values(|s: String| s@)
}

/// A copy of a task.
pub fn clone_agent_task(t: &AgentTask) -> (r: AgentTask)
    ensures
        r@ == t@,
{
    AgentTask {
        name: string_of(t.name.as_str()),
        task_type: string_of(t.task_type.as_str()),
        session_id: clone_opt(&t.session_id),
        subtitle: clone_opt(&t.subtitle),
    }
}

/// Titles equal to `x`.
pub open spec fn is_title(x: Seq<char>) -> spec_fn(Seq<char>) -> bool {
    |y: Seq<char>| y == x
}

/// Tasks grouped into sections by type, sections in order of first appearance, tasks in
/// their order: the section titles and the tasks of each.
pub open spec fn sections_of(s: Seq<AgentTaskView>) -> (Seq<Seq<char>>, Seq<Seq<AgentTaskView>>)
    decreases s.len(),
{
    if s.len() == 0 {
        (Seq::empty(), Seq::empty())
    } else {
        let (titles, groups) = sections_of(s.drop_last());
        let t = s.last();
        match first_match(titles, is_title(t.task_type)) {
            Some(k) => (titles, groups.update(k, groups[k].push(t))),
            None => (titles.push(t.task_type), groups.push(seq![t])),
        }
    }
}

/// A task matches the query when its lowercased name contains the lowercased query.
pub open spec fn name_matches(q: Seq<char>) -> spec_fn(AgentTaskView) -> bool {
    |t: AgentTaskView| contains_seq(lowercase(t.name), lowercase(q))
}

proof fn lemma_sections_len(s: Seq<AgentTaskView>)
    ensures
        sections_of(s).0.len() == sections_of(s).1.len(),
    decreases s.len(),
{
    if s.len() > 0 {
        lemma_sections_len(s.drop_last());
        let (titles, groups) = sections_of(s.drop_last());
        lemma_first_match_props(titles, is_title(s.last().task_type));
    }
}

/// What the task list shows.
pub struct TaskListState {
    /// All tasks, newest first.
    pub tasks: Vec<AgentTask>,
    pub query: String,
    /// Section titles (task types).
    pub sections: Vec<String>,
    /// The matching tasks of each section.
    pub matched: Vec<Vec<AgentTask>>,
    /// Selected (section, row).
    pub selected: Option<(usize, usize)>,
    /// Collapsed sections.
    pub collapsed: Vec<usize>,
    pub loading: bool,
    pub eof: bool,
    pub lazy_load: bool,
}

/// Position of the first title `x`.
pub fn find_title(titles: &Vec<String>, x: &str) -> (r: Option<usize>)
    ensures
        match r {
            Some(k) => first_match(title_views(titles@), is_title(x@)) == Some(k as int),
            None => first_match(title_views(titles@), is_title(x@)) is None,
        },
{
    let ghost tv = title_views(titles@);
    let mut i: usize = 0;
    assert(tv.take(0) =~= Seq::<Seq<char>>::empty());
    while i < titles.len()
        invariant
            i <= titles.len(),
            tv == title_views(titles@),
            first_match(tv.take(i as int), is_title(x@)) is None,
        decreases titles.len() - i,
    {
        proof {
            lemma_first_match_step(tv, is_title(x@), i as int);
        }
        if str_eq(titles[i].as_str(), x) {
            proof {
                lemma_first_match_prefix(tv, is_title(x@), i + 1);
            }
            return Some(i);
        }
        i = i + 1;
    }
    assert(tv.take(i as int) =~= tv);
    None
}

impl TaskListState {
    /// Shows the tasks whose names contain `query` (ignoring case), grouped into sections.
    pub fn prepare(&mut self, query: &str)
        ensures
            final(self).query@ == query@,
            (title_views(final(self).sections@), section_views(final(self).matched@)) == sections_of(
                agent_task_views(old(self).tasks@).filter(name_matches(query@)),
            ),
            final(self).tasks == old(self).tasks,
            final(self).selected == old(self).selected,
            final(self).collapsed == old(self).collapsed,
            final(self).loading == old(self).loading,
            final(self).eof == old(self).eof,
            final(self).lazy_load == old(self).lazy_load,
    {
        self.query = string_of(query);
        let q = to_lowercase(query);
        let ghost tv = agent_task_views(self.tasks@);
        let ghost p = name_matches(query@);
        let mut sections: Vec<String> = Vec::new();
        let mut matched: Vec<Vec<AgentTask>> = Vec::new();
        let mut i: usize = 0;
        assert(tv.take(0) =~= Seq::<AgentTaskView>::empty());
        reveal(Seq::filter);
        assert(title_views(sections@) =~= Seq::<Seq<char>>::empty());
        assert(section_views(matched@) =~= Seq::<Seq<AgentTaskView>>::empty());
        while i < self.tasks.len()
            invariant
                i <= self.tasks.len(),
                tv == agent_task_views(self.tasks@),
                p == name_matches(query@),
                q@ == lowercase(query@),
                (title_views(sections@), section_views(matched@)) == sections_of(tv.take(i as int).filter(p)),
            decreases self.tasks.len() - i,
        {
            proof {
                crate::seqs::lemma_filter_take_step(tv, p, i as int);
                lemma_sections_len(tv.take(i as int).filter(p));
            }
            let t = &self.tasks[i];
            assert(tv[i as int] == t@);
            let lname = to_lowercase(t.name.as_str());
            if contains(lname.as_str(), q.as_str()) {
                let ghost fs = tv.take(i as int).filter(p);
                assert(fs.push(t@).drop_last() =~= fs);
                let ghost tvs = title_views(sections@);
                let ghost svs = section_views(matched@);
                match find_title(&sections, t.task_type.as_str()) {
                    Some(k) => {
                        proof {
                            lemma_first_match_props(tvs, is_title(t@.task_type));
                        }
                        let c = clone_agent_task(t);
                        assert(agent_task_views(matched@[k as int]@) == svs[k as int]);
                        matched[k].push(c);
                        assert(agent_task_views(matched@[k as int]@) =~= svs[k as int].push(t@));
                        assert(section_views(matched@) =~= svs.update(k as int, svs[k as int].push(t@)));
                    },
                    None => {
                        sections.push(string_of(t.task_type.as_str()));
                        let mut g: Vec<AgentTask> = Vec::new();
                        g.push(clone_agent_task(t));
                        assert(agent_task_views(g@) =~= seq![t@]);
                        matched.push(g);
                        assert(title_views(sections@) =~= tvs.push(t@.task_type));
                        assert(section_views(matched@) =~= svs.push(seq![t@]));
                    },
                }
            }
            i = i + 1;
        }
        assert(tv.take(i as int) =~= tv);
        self.sections = sections;
        self.matched = matched;
    }
}

} // verus!

verus! {

/// The subtitle preview of a message: its first 50 bytes followed by `...` when it is
/// longer than that, otherwise the whole message.
pub open spec fn preview_of(text: Seq<char>) -> Seq<char> {
    if utf8_len(text) > 50 {
        utf8_prefix(text, 50) + "..."@
    } else {
        text
    }
}

/// Tasks of session `sid`.
pub open spec fn of_session(sid: Seq<char>) -> spec_fn(AgentTaskView) -> bool {
    |t: AgentTaskView| t.session_id == Some(sid)
}

/// The subtitle preview of a message.
pub fn subtitle_preview(text: &str) -> (r: String)
    requires
        utf8_len(text@) > 50 ==> is_utf8_boundary(text@, 50),
    ensures
        r@ == preview_of(text@),
{
    let (longer, head) = crate::content::utf8_truncate_checked(text, 50);
    if longer {
        concat2(head.as_str(), "...")
    } else {
        string_of(text)
    }
}

impl TaskListState {
    /// A task list holding `tasks`, showing all of them.
    pub fn new(tasks: Vec<AgentTask>) -> (r: Self)
        ensures
            r.tasks == tasks,
            r.query@ == Seq::<char>::empty(),
            (title_views(r.sections@), section_views(r.matched@)) == sections_of(
                agent_task_views(tasks@).filter(name_matches(Seq::<char>::empty())),
            ),
            r.selected == Some((0usize, 0usize)),
            r.collapsed@.len() == 0,
            !r.loading && !r.eof && !r.lazy_load,
    {
        let mut s = TaskListState {
            tasks,
            query: String::new(),
            sections: Vec::new(),
            matched: Vec::new(),
            selected: Some((0, 0)),
            collapsed: Vec::new(),
            loading: false,
            eof: false,
            lazy_load: false,
        };
        s.prepare("");
        proof {
            reveal_strlit("");
            assert(""@ =~= Seq::<char>::empty());
        }
        s
    }

    /// The selected task, if the selection names one.
    pub fn selected_agent_task(&self) -> (r: Option<AgentTask>)
        ensures
            match self.selected {
                Some((sec, row)) => if sec < self.matched@.len() && row < self.matched@[sec as int]@.len() {
                    r matches Some(t) && t@ == self.matched@[sec as int]@[row as int]@
                } else {
                    r is None
                },
                None => r is None,
            },
    {
        match self.selected {
            Some((sec, row)) => {
                if sec < self.matched.len() && row < self.matched[sec].len() {
                    Some(clone_agent_task(&self.matched[sec][row]))
                } else {
                    None
                }
            },
            None => None,
        }
    }

    /// Whether section `section` is collapsed.
    pub fn is_section_collapsed(&self, section: usize) -> (r: bool)
        ensures
            r == self.collapsed@.contains(section),
    {
        let mut i: usize = 0;
        while i < self.collapsed.len()
            invariant
                i <= self.collapsed.len(),
                forall|k: int| 0 <= k < i ==> self.collapsed@[k] != section,
            decreases self.collapsed.len() - i,
        {
            if self.collapsed[i] == section {
                return true;
            }
            i = i + 1;
        }
        false
    }

    /// Number of rows section `section` shows: none while it is collapsed.
    pub fn items_count(&self, section: usize) -> (r: usize)
        requires
            !self.collapsed@.contains(section) ==> section < self.matched@.len(),
        ensures
            r == (if self.collapsed@.contains(section) {
                0
            } else {
                self.matched@[section as int]@.len()
            }),
    {
        if self.is_section_collapsed(section) {
            0
        } else {
            self.matched[section].len()
        }
    }

    /// Collapses an expanded section, or expands a collapsed one.
    pub fn toggle_section(&mut self, section: usize)
        requires
            old(self).collapsed@.no_duplicates(),
        ensures
            final(self).collapsed@.no_duplicates(),
            final(self).collapsed@.to_set() == toggled_set(old(self).collapsed@.to_set(), section),
            final(self).tasks == old(self).tasks,
            final(self).sections == old(self).sections,
            final(self).matched == old(self).matched,
            final(self).selected == old(self).selected,
    {
        let ghost c0 = self.collapsed@;
        let mut i: usize = 0;
        while i < self.collapsed.len()
            invariant
                i <= self.collapsed.len(),
                self.collapsed@ == c0,
                self == old(self),
                c0.no_duplicates(),
                forall|k: int| 0 <= k < i ==> c0[k] != section,
            decreases self.collapsed.len() - i,
        {
            if self.collapsed[i] == section {
                self.collapsed.remove(i);
                proof {
                    assert(self.collapsed@ =~= c0.remove(i as int));
                    assert forall|a: int, b: int| 0 <= a < b < self.collapsed@.len() implies self.collapsed@[a] != self.collapsed@[b] by {
                        let a2 = if a < i { a } else { a + 1 };
                        let b2 = if b < i { b } else { b + 1 };
                        assert(self.collapsed@[a] == c0[a2] && self.collapsed@[b] == c0[b2]);
                    }
                    assert forall|x: usize| #[trigger] self.collapsed@.to_set().contains(x) == c0.to_set().remove(section).contains(x) by {
                        if c0.contains(x) && x != section {
                            let k = choose|k: int| 0 <= k < c0.len() && c0[k] == x;
                            if k < i {
                                assert(self.collapsed@[k] == x);
                            } else {
                                assert(k != i);
                                assert(self.collapsed@[k - 1] == x);
                            }
                        }
                        if self.collapsed@.contains(x) {
                            let k = choose|k: int| 0 <= k < self.collapsed@.len() && self.collapsed@[k] == x;
                            if k < i {
                                assert(c0[k] == x);
                            } else {
                                assert(c0[k + 1] == x);
                            }
                        }
                    }
                    assert(self.collapsed@.to_set() =~= c0.to_set().remove(section));
                }
                return ;
            }
            i = i + 1;
        }
        self.collapsed.push(section);
        proof {
            assert(!c0.contains(section));
            assert(self.collapsed@ =~= c0.push(section));
            assert forall|x: usize| #[trigger] self.collapsed@.to_set().contains(x) == c0.to_set().insert(section).contains(x) by {
                if c0.contains(x) {
                    let k = choose|k: int| 0 <= k < c0.len() && c0[k] == x;
                    assert(self.collapsed@[k] == x);
                }
                if x == section {
                    assert(self.collapsed@[c0.len() as int] == x);
                }
                if self.collapsed@.contains(x) {
                    let k = choose|k: int| 0 <= k < self.collapsed@.len() && self.collapsed@[k] == x;
                    if k < c0.len() {
                        assert(c0[k] == x);
                    }
                }
            }
            assert(self.collapsed@.to_set() =~= c0.to_set().insert(section));
        }
    }

    /// Whether every section is collapsed (then the empty view lists the section headers).
    pub fn all_sections_collapsed(&self) -> (r: bool)
        ensures
            r == (self.sections@.len() > 0 && self.sections@.len() == self.collapsed@.len()),
    {
        self.sections.len() > 0 && self.sections.len() == self.collapsed.len()
    }

    /// Whether the list has loaded everything (as the list widget asks it).
    pub fn is_eof(&self) -> (r: bool)
        ensures
            r == (!self.loading && !self.eof),
    {
        !self.loading && !self.eof
    }

    /// After more tasks were loaded: the list is complete once it holds 6000 tasks.
    pub fn update_eof(&mut self)
        ensures
            final(self).eof == (old(self).tasks@.len() >= 6000),
            final(self).tasks == old(self).tasks,
            final(self).sections == old(self).sections,
            final(self).matched == old(self).matched,
    {
        self.eof = self.tasks.len() >= 6000;
    }

    /// Shows a message of session `session_id` as the subtitle of the first task of that
    /// session, and shows all tasks again; false (and nothing changes) when the message is
    /// empty or no task has that session.
    pub fn handle_session_message(&mut self, session_id: &str, text: &str) -> (found: bool)
        requires
            utf8_len(text@) > 50 ==> is_utf8_boundary(text@, 50),
        ensures
            text@.len() == 0 ==> !found && *final(self) == *old(self),
            text@.len() > 0 ==> match first_match(agent_task_views(old(self).tasks@), of_session(session_id@)) {
                Some(k) => found && agent_task_views(final(self).tasks@) == agent_task_views(old(self).tasks@).update(
                    k,
                    AgentTaskView { subtitle: Some(preview_of(text@)), ..agent_task_views(old(self).tasks@)[k] },
                ) && final(self).query@ == Seq::<char>::empty() && (title_views(final(self).sections@), section_views(
                    final(self).matched@,
                )) == sections_of(agent_task_views(final(self).tasks@).filter(name_matches(Seq::<char>::empty()))),
                None => !found && *final(self) == *old(self),
            },
    {
        if text.is_empty() {
            return false;
        }
        let ghost tv = agent_task_views(self.tasks@);
        let mut i: usize = 0;
        assert(tv.take(0) =~= Seq::<AgentTaskView>::empty());
        while i < self.tasks.len()
            invariant
                i <= self.tasks.len(),
                tv == agent_task_views(self.tasks@),
                self == old(self),
                text@.len() > 0,
                utf8_len(text@) > 50 ==> is_utf8_boundary(text@, 50),
                first_match(tv.take(i as int), of_session(session_id@)) is None,
            decreases self.tasks.len() - i,
        {
            proof {
                lemma_first_match_step(tv, of_session(session_id@), i as int);
            }
            let m = match &self.tasks[i].session_id {
                Some(s) => str_eq(s.as_str(), session_id),
                None => false,
            };
            assert(tv[i as int] == self.tasks@[i as int]@);
            if m {
                proof {
                    lemma_first_match_prefix(tv, of_session(session_id@), i + 1);
                }
                let preview = subtitle_preview(text);
                self.tasks[i].subtitle = Some(preview);
                assert(agent_task_views(self.tasks@) =~= tv.update(
                    i as int,
                    AgentTaskView { subtitle: Some(preview_of(text@)), ..tv[i as int] },
                ));
                self.prepare("");
                proof {
                    reveal_strlit("");
                    assert(""@ =~= Seq::<char>::empty());
                }
                return true;
            }
            i = i + 1;
        }
        assert(tv.take(i as int) =~= tv);
        false
    }

    /// Adds a task at the top of the list and shows all tasks again.
    pub fn add_task_at_front(&mut self, task: AgentTask)
        ensures
            agent_task_views(final(self).tasks@) == seq![task@] + agent_task_views(old(self).tasks@),
            final(self).query@ == Seq::<char>::empty(),
            (title_views(final(self).sections@), section_views(final(self).matched@)) == sections_of(
                agent_task_views(final(self).tasks@).filter(name_matches(Seq::<char>::empty())),
            ),
    {
        let ghost tv = agent_task_views(self.tasks@);
        let ghost t = task@;
        self.tasks.insert(0, task);
        assert(agent_task_views(self.tasks@) =~= seq![t] + tv);
        self.prepare("");
        proof {
            reveal_strlit("");
            assert(""@ =~= Seq::<char>::empty());
        }
    }
}

/// The task that a new conversation started from the welcome panel adds.
pub fn task_from_welcome(task_input: &str) -> (r: AgentTask)
    ensures
        r@ == (AgentTaskView { name: task_input@, task_type: "Conversation"@, session_id: None, subtitle: None }),
{
    AgentTask { name: string_of(task_input), task_type: string_of("Conversation"), session_id: None, subtitle: None }
}

/// The task that a new session adds, in the default section.
pub fn task_for_session(task_name: &str, session_id: &str) -> (r: AgentTask)
    ensures
        r@ == (AgentTaskView {
            name: task_name@,
            task_type: "Default"@,
            session_id: Some(session_id@),
            subtitle: None,
        }),
{
    AgentTask {
        name: string_of(task_name),
        task_type: string_of("Default"),
        session_id: Some(string_of(session_id)),
        subtitle: None,
    }
}

} // verus!

verus! {

// ---------------------------------------------------------------------------
// Laws
// ---------------------------------------------------------------------------

/// Tasks of type `x`.
pub open spec fn of_type(x: Seq<char>) -> spec_fn(AgentTaskView) -> bool {
    |t: AgentTaskView| t.task_type == x
}

proof fn lemma_filter_none<A>(s: Seq<A>, p: spec_fn(A) -> bool)
    requires
        forall|i: int| 0 <= i < s.len() ==> !p(#[trigger] s[i]),
    ensures
        s.filter(p) == Seq::<A>::empty(),
    decreases s.len(),
{
    if s.len() > 0 {
        lemma_filter_none(s.drop_last(), p);
        crate::seqs::lemma_filter_push(s.drop_last(), p, s.last());
        assert(s.drop_last().push(s.last()) =~= s);
    }
}

/// Grouping puts every task in the section of its type and in no other: the section
/// titles are distinct, every type has a section, and each section holds exactly the
/// tasks of its type, in their order.
pub proof fn lemma_sections_partition(s: Seq<AgentTaskView>)
    ensures
        sections_of(s).0.len() == sections_of(s).1.len(),
        sections_of(s).0.no_duplicates(),
        forall|i: int| 0 <= i < s.len() ==> sections_of(s).0.contains(#[trigger] s[i].task_type),
        forall|k: int| 0 <= k < sections_of(s).0.len() ==> #[trigger] sections_of(s).1[k] == s.filter(
            of_type(sections_of(s).0[k]),
        ),
    decreases s.len(),
{
    if s.len() > 0 {
        let before = s.drop_last();
        lemma_sections_partition(before);
        lemma_sections_len(before);
        let (titles, groups) = sections_of(before);
        let t = s.last();
        assert(before.push(t) =~= s);
        lemma_first_match_props(titles, is_title(t.task_type));
        assert forall|k: int| 0 <= k < titles.len() implies #[trigger] s.filter(of_type(titles[k]))
            == (if titles[k] == t.task_type {
            before.filter(of_type(titles[k])).push(t)
        } else {
            before.filter(of_type(titles[k]))
        }) by {
            crate::seqs::lemma_filter_push(before, of_type(titles[k]), t);
        }
        match first_match(titles, is_title(t.task_type)) {
            Some(k) => {
                let (t2, g2) = sections_of(s);
                assert(t2 == titles);
                assert forall|j: int| 0 <= j < t2.len() implies #[trigger] g2[j] == s.filter(
                    of_type(t2[j]),
                ) by {
                    if j != k {
                        assert(titles[j] != titles[k]);
                    }
                }
                assert forall|i: int| 0 <= i < s.len() implies t2.contains(#[trigger] s[i].task_type) by {
                    if i < before.len() {
                        assert(s[i] == before[i]);
                    } else {
                        assert(titles[k] == t.task_type);
                    }
                }
            },
            None => {
                let (t2, g2) = sections_of(s);
                assert(t2 == titles.push(t.task_type));
                assert forall|i: int| 0 <= i < before.len() implies #[trigger] before[i].task_type
                    != t.task_type by {
                    assert(titles.contains(before[i].task_type));
                }
                lemma_filter_none(before, of_type(t.task_type));
                crate::seqs::lemma_filter_push(before, of_type(t.task_type), t);
                assert forall|j: int| 0 <= j < t2.len() implies #[trigger] g2[j] == s.filter(
                    of_type(t2[j]),
                ) by {
                    if j < titles.len() {
                        assert(t2[j] == titles[j]);
                        assert(titles[j] != t.task_type);
                    } else {
                        assert(s.filter(of_type(t.task_type)) =~= seq![t]);
                    }
                }
                assert forall|i: int| 0 <= i < s.len() implies t2.contains(#[trigger] s[i].task_type) by {
                    if i < before.len() {
                        assert(s[i] == before[i]);
                        let j = choose|j: int| 0 <= j < titles.len() && titles[j] == before[i].task_type;
                        assert(t2[j] == titles[j]);
                    } else {
                        assert(t2[titles.len() as int] == t.task_type);
                    }
                }
                assert forall|a: int, b: int| 0 <= a < t2.len() && 0 <= b < t2.len() && a != b
                    implies t2[a] != t2[b] by {
                    if a < titles.len() && b < titles.len() {
                    } else if a < titles.len() {
                        assert(titles[a] != t.task_type);
                    } else {
                        assert(titles[b] != t.task_type);
                    }
                }
            },
        }
    }
}

/// The set of collapsed sections after toggling `section`.
pub open spec fn toggled_set(s: Set<usize>, section: usize) -> Set<usize> {
    if s.contains(section) {
        s.remove(section)
    } else {
        s.insert(section)
    }
}

/// Toggling a section twice gives back the collapsed sections as they were.
pub proof fn lemma_toggle_section_twice(s: Set<usize>, section: usize)
    ensures
        toggled_set(toggled_set(s, section), section) == s,
{
    assert(toggled_set(toggled_set(s, section), section) =~= s);
}

} // verus!

verus! {

/// The search shows a task exactly when its lowercased name contains the lowercased
/// query: after `prepare(query)`, the sections that `sections_of` gives for the matching
/// tasks hold a task if and only if it matches in this sense.
pub proof fn lemma_search_shows_matching_names(tasks: Seq<AgentTaskView>, query: Seq<char>)
    ensures
        forall|i: int|
            #![trigger tasks[i]]
            0 <= i < tasks.len() ==> ((exists|k: int|
                0 <= k < sections_of(tasks.filter(name_matches(query))).1.len()
                    && #[trigger] sections_of(tasks.filter(name_matches(query))).1[k].contains(tasks[i]))
                <==> contains_seq(lowercase(tasks[i].name), lowercase(query))),
{
    let s = tasks.filter(name_matches(query));
    lemma_sections_partition(s);
    let (titles, groups) = sections_of(s);
    assert forall|i: int|
        #![trigger tasks[i]]
        0 <= i < tasks.len() implies ((exists|k: int|
            0 <= k < groups.len() && #[trigger] groups[k].contains(tasks[i]))
            <==> contains_seq(lowercase(tasks[i].name), lowercase(query))) by {
        let t = tasks[i];
        if exists|k: int| 0 <= k < groups.len() && #[trigger] groups[k].contains(t) {
            let k = choose|k: int| 0 <= k < groups.len() && #[trigger] groups[k].contains(t);
            s.lemma_filter_contains_rev(of_type(titles[k]), t);
            tasks.lemma_filter_contains_rev(name_matches(query), t);
            let m = choose|m: int| 0 <= m < s.len() && s[m] == t;
            tasks.lemma_filter_pred(name_matches(query), m);
        }
        if contains_seq(lowercase(t.name), lowercase(query)) {
            tasks.lemma_filter_contains(name_matches(query), i);
            let m = choose|m: int| 0 <= m < s.len() && s[m] == t;
            assert(titles.contains(s[m].task_type));
            let k = choose|k: int| 0 <= k < titles.len() && titles[k] == s[m].task_type;
            s.lemma_filter_contains(of_type(titles[k]), m);
            assert(groups[k].contains(t));
        }
    }
}

} // verus!
