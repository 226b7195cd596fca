//! What a dock panel records of the view it holds, and how panel classes are named.
use vstd::prelude::*;
use crate::content::opt_view;
use crate::text::{
    chars_of, contains_seq, has_prefix, matches_at, occurs_at, str_eq, string_from_range,
    string_of, string_views, strip_all_prefix, trim_start_matches,
};

verus! {

// ---------------------------------------------------------------------------
// Splitting on a separator string
// ---------------------------------------------------------------------------

/// `i` is the first position at which `p` occurs in `s`.
pub open spec fn is_first_occurrence(s: Seq<char>, p: Seq<char>, i: int) -> bool {
    occurs_at(s, p, i) && forall|j: int| 0 <= j < i ==> !occurs_at(s, p, j)
}

/// The first position at which `p` occurs in `s` (meaningful when it occurs).
pub open spec fn first_occurrence(s: Seq<char>, p: Seq<char>) -> int {
    choose|i: int| is_first_occurrence(s, p, i)
}

proof fn lemma_first_below(s: Seq<char>, p: Seq<char>, k: int)
    requires
        occurs_at(s, p, k),
    ensures
        exists|i: int| is_first_occurrence(s, p, i),
    decreases k,
{
    if exists|j: int| 0 <= j < k && occurs_at(s, p, j) {
        let j = choose|j: int| 0 <= j < k && occurs_at(s, p, j);
        lemma_first_below(s, p, j);
    } else {
        assert(is_first_occurrence(s, p, k));
    }
}

/// Where `p` occurs in `s`, it has a first occurrence.
pub proof fn lemma_first_occurrence(s: Seq<char>, p: Seq<char>)
    requires
        contains_seq(s, p),
    ensures
        is_first_occurrence(s, p, first_occurrence(s, p)),
{
    let k = choose|i: int| occurs_at(s, p, i);
    lemma_first_below(s, p, k);
}

/// The first occurrence is the only position that is one.
pub proof fn lemma_first_occurrence_unique(s: Seq<char>, p: Seq<char>, m: int)
    requires
        is_first_occurrence(s, p, m),
    ensures
        first_occurrence(s, p) == m,
{
    lemma_first_occurrence(s, p);
}

/// The pieces of `s` between the occurrences of the non-empty separator `p`, found
/// from left to right without overlap (`str::split` with a string pattern).
pub open spec fn split_str(s: Seq<char>, p: Seq<char>) -> Seq<Seq<char>>
    decreases s.len(),
{
    if p.len() > 0 && contains_seq(s, p) {
        let i = first_occurrence(s, p);
        proof {
            lemma_first_occurrence(s, p);
        }
        seq![s.take(i)] + split_str(s.skip(i + p.len()), p)
    } else {
        seq![s]
    }
}

proof fn lemma_occurs_skip(s: Seq<char>, p: Seq<char>, start: int, k: int)
    requires
        0 <= start <= k,
        start <= s.len(),
    ensures
        occurs_at(s, p, k) == occurs_at(s.skip(start), p, k - start),
{
    if k + p.len() <= s.len() {
        assert(s.skip(start).subrange(k - start, k - start + p.len()) =~= s.subrange(k, k + p.len()));
    }
}

/// The last piece of `s` split on the non-empty separator `sep`.
pub fn last_piece(s: &str, sep: &str) -> (r: String)
    requires
        sep@.len() > 0,
    ensures
        r@ == split_str(s@, sep@).last(),
{
    let v = chars_of(s);
    let q = chars_of(sep);
    let mut start: usize = 0;
    let mut j: usize = 0;
    assert(v@.skip(0) =~= v@);
    while j < v.len()
        invariant
            q@.len() > 0,
            start <= j <= v.len(),
            split_str(v@, q@).last() == split_str(v@.skip(start as int), q@).last(),
            forall|k: int| start <= k < j ==> !occurs_at(v@, q@, k),
        decreases v.len() - j,
    {
        if matches_at(&v, &q, j) {
            proof {
                let t = v@.skip(start as int);
                let m = j - start;
                assert forall|k: int| 0 <= k < m implies !occurs_at(t, q@, k) by {
                    lemma_occurs_skip(v@, q@, start as int, k + start);
                }
                lemma_occurs_skip(v@, q@, start as int, j as int);
                assert(is_first_occurrence(t, q@, m));
                lemma_first_occurrence_unique(t, q@, m);
                let rest = split_str(t.skip(m + q@.len()), q@);
                assert(rest.len() >= 1);
                assert((seq![t.take(m)] + rest).last() == rest.last());
                assert(t.skip(m + q@.len()) =~= v@.skip(j + q@.len()));
            }
            start = j + q.len();
            j = start;
        } else {
            j = j + 1;
        }
    }
    proof {
        let t = v@.skip(start as int);
        if contains_seq(t, q@) {
            let k = choose|k: int| occurs_at(t, q@, k);
            lemma_occurs_skip(v@, q@, start as int, k + start);
        }
        assert(t =~= v@.subrange(start as int, v@.len() as int));
    }
    string_from_range(&v, start, v.len())
}

/// The class name of a panel: the last `::`-separated piece of its type's path.
pub fn klass_of(path: &str) -> (r: String)
    ensures
        r@ == split_str(path@, "::"@).last(),
{
    proof {
        reveal_strlit("::");
    }
    last_piece(path, "::")
}

// ---------------------------------------------------------------------------
// Paths
// ---------------------------------------------------------------------------

/// The prefix of a Windows extended-length path.
pub open spec fn extended_prefix() -> Seq<char> {
    seq!['\\', '\\', '?', '\\']
}

/// A path as a panel records it: on Windows without its extended-length prefix.
pub open spec fn normalized_path(p: Seq<char>, windows: bool) -> Seq<char> {
    if windows && has_prefix(p, extended_prefix()) {
        strip_all_prefix(p, extended_prefix())
    } else {
        p
    }
}

/// Removes the extended-length prefix `\\?\` from a path on Windows.
pub fn normalize_path(path: &str, windows: bool) -> (r: String)
    ensures
        r@ == normalized_path(path@, windows),
{
    let prefix = "\\\\?\\";
    proof {
        reveal_strlit("\\\\?\\");
        assert(prefix@ =~= extended_prefix());
    }
    if windows && crate::text::starts_with(path, prefix) {
        trim_start_matches(path, prefix)
    } else {
        string_of(path)
    }
}

// ---------------------------------------------------------------------------
// Panel state
// ---------------------------------------------------------------------------

/// The view that a dock panel holds, with what the panel reports of itself.
#[allow(inconsistent_fields)]
pub enum StoryPanel {
    Conversation {
        session_id: Option<String>,
        workspace_id: Option<String>,
        workspace_name: Option<String>,
        working_directory: Option<String>,
    },
    Welcome { workspace_id: Option<String>, workspace_name: Option<String>, working_directory: String },
    CodeEditor {
        workspace_id: Option<String>,
        workspace_name: Option<String>,
        working_directory: String,
    },
    Terminal {
        workspace_id: Option<String>,
        workspace_name: Option<String>,
        working_directory: Option<String>,
    },
    /// A view of another kind.
    Other,
}

/// What a dock panel saves of the view it holds.
pub struct DockPanelState {
    pub story_klass: String,
    pub session_id: Option<String>,
    pub workspace_id: Option<String>,
    pub workspace_name: Option<String>,
    pub working_directory: Option<String>,
}

/// The abstract value of a `DockPanelState`.
pub struct PanelStateView {
    pub story_klass: Seq<char>,
    pub session_id: Option<Seq<char>>,
    pub workspace_id: Option<Seq<char>>,
    pub workspace_name: Option<Seq<char>>,
    pub working_directory: Option<Seq<char>>,
}

impl View for DockPanelState {
    type V = PanelStateView;

    open spec fn view(&self) -> PanelStateView {
        PanelStateView {
            story_klass: self.story_klass@,
            session_id: opt_view(self.session_id),
            workspace_id: opt_view(self.workspace_id),
            workspace_name: opt_view(self.workspace_name),
            working_directory: opt_view(self.working_directory),
        }
    }
}

/// The saved state with the class name alone.
pub open spec fn bare_state(klass: Seq<char>) -> PanelStateView {
    PanelStateView {
        story_klass: klass,
        session_id: None,
        workspace_id: None,
        workspace_name: None,
        working_directory: None,
    }
}

/// The state a panel saves: the fields of its view, read when the view is of the
/// class the panel names.
pub open spec fn saved_state(klass: Seq<char>, story: Option<StoryPanel>, windows: bool) -> PanelStateView {
    match story {
        Some(StoryPanel::Conversation { session_id, workspace_id, workspace_name, working_directory }) =>
            if klass == "ConversationPanel"@ {
                PanelStateView {
                    story_klass: klass,
                    session_id: opt_view(session_id),
                    workspace_id: opt_view(workspace_id),
                    workspace_name: opt_view(workspace_name),
                    working_directory: opt_view(working_directory),
                }
            } else {
                bare_state(klass)
            },
        Some(StoryPanel::Welcome { workspace_id, workspace_name, working_directory }) =>
            if klass == "WelcomePanel"@ {
                PanelStateView {
                    story_klass: klass,
                    session_id: None,
                    workspace_id: opt_view(workspace_id),
                    workspace_name: opt_view(workspace_name),
                    working_directory: Some(normalized_path(working_directory@, windows)),
                }
            } else {
                bare_state(klass)
            },
        Some(StoryPanel::CodeEditor { workspace_id, workspace_name, working_directory }) =>
            if klass == "CodeEditorPanel"@ {
                PanelStateView {
                    story_klass: klass,
                    session_id: None,
                    workspace_id: opt_view(workspace_id),
                    workspace_name: opt_view(workspace_name),
                    working_directory: Some(normalized_path(working_directory@, windows)),
                }
            } else {
                bare_state(klass)
            },
        Some(StoryPanel::Terminal { workspace_id, workspace_name, working_directory }) =>
            if klass == "TerminalPanel"@ {
                PanelStateView {
                    story_klass: klass,
                    session_id: None,
                    workspace_id: opt_view(workspace_id),
                    workspace_name: opt_view(workspace_name),
                    working_directory: match working_directory {
                        Some(d) => Some(normalized_path(d@, windows)),
                        None => None,
                    },
                }
            } else {
                bare_state(klass)
            },
        _ => bare_state(klass),
    }
}

/// The state that a dock panel of class `story_klass` saves of the view it holds.
pub fn panel_state(story_klass: &str, story: &Option<StoryPanel>, windows: bool) -> (r: DockPanelState)
    ensures
        r@ == saved_state(story_klass@, *story, windows),
{
    let mut state = DockPanelState {
        story_klass: string_of(story_klass),
        session_id: None,
        workspace_id: None,
        workspace_name: None,
        working_directory: None,
    };
    match story {
        Some(StoryPanel::Conversation { session_id, workspace_id, workspace_name, working_directory }) => {
            if str_eq(story_klass, "ConversationPanel") {
                state.session_id = crate::content::clone_opt(session_id);
                state.workspace_id = crate::content::clone_opt(workspace_id);
                state.workspace_name = crate::content::clone_opt(workspace_name);
                state.working_directory = crate::content::clone_opt(working_directory);
            }
        },
        Some(StoryPanel::Welcome { workspace_id, workspace_name, working_directory }) => {
            if str_eq(story_klass, "WelcomePanel") {
                state.workspace_id = crate::content::clone_opt(workspace_id);
                state.workspace_name = crate::content::clone_opt(workspace_name);
                state.working_directory = Some(normalize_path(working_directory.as_str(), windows));
            }
        },
        Some(StoryPanel::CodeEditor { workspace_id, workspace_name, working_directory }) => {
            if str_eq(story_klass, "CodeEditorPanel") {
                state.workspace_id = crate::content::clone_opt(workspace_id);
                state.workspace_name = crate::content::clone_opt(workspace_name);
                state.working_directory = Some(normalize_path(working_directory.as_str(), windows));
            }
        },
        Some(StoryPanel::Terminal { workspace_id, workspace_name, working_directory }) => {
            if str_eq(story_klass, "TerminalPanel") {
                state.workspace_id = crate::content::clone_opt(workspace_id);
                state.workspace_name = crate::content::clone_opt(workspace_name);
                state.working_directory = match working_directory {
                    Some(d) => Some(normalize_path(d.as_str(), windows)),
                    None => None,
                };
            }
        },
        _ => {},
    }
    state
}

/// Whether a panel named `name` is shown: it is not among the hidden ones.
pub fn is_visible(invisible: &Vec<String>, name: &str) -> (r: bool)
    ensures
        r == !string_views(invisible@).contains(name@),
{
    let mut i: usize = 0;
    while i < invisible.len()
        invariant
            i <= invisible.len(),
            forall|k: int| 0 <= k < i ==> invisible@[k]@ != name@,
        decreases invisible.len() - i,
    {
        if str_eq(invisible[i].as_str(), name) {
            assert(string_views(invisible@)[i as int] == name@);
            return false;
        }
        i = i + 1;
    }
    proof {
        if string_views(invisible@).contains(name@) {
            let k = choose|k: int| 0 <= k < string_views(invisible@).len() && string_views(invisible@)[k] == name@;
            assert(invisible@[k]@ == name@);
        }
    }
    true
}

} // verus!

verus! {

// ---------------------------------------------------------------------------
// Laws
// ---------------------------------------------------------------------------

proof fn lemma_stripped_has_no_prefix(s: Seq<char>, p: Seq<char>)
    requires
        p.len() > 0,
    ensures
        !has_prefix(strip_all_prefix(s, p), p),
    decreases s.len(),
{
    if has_prefix(s, p) {
        lemma_stripped_has_no_prefix(s.subrange(p.len() as int, s.len() as int), p);
    }
}

/// Normalizing a path twice gives what normalizing it once gives.
pub proof fn lemma_normalize_idempotent(p: Seq<char>, windows: bool)
    ensures
        normalized_path(normalized_path(p, windows), windows) == normalized_path(p, windows),
{
    if windows && has_prefix(p, extended_prefix()) {
        lemma_stripped_has_no_prefix(p, extended_prefix());
    }
}

/// The last piece of a split holds no separator.
pub proof fn lemma_last_piece_has_no_separator(s: Seq<char>, p: Seq<char>)
    requires
        p.len() > 0,
    ensures
        !contains_seq(split_str(s, p).last(), p),
    decreases s.len(),
{
    if contains_seq(s, p) {
        lemma_first_occurrence(s, p);
        let i = first_occurrence(s, p);
        let rest = s.skip(i + p.len());
        lemma_last_piece_has_no_separator(rest, p);
        let tail = split_str(rest, p);
        assert(tail.len() >= 1);
        assert((seq![s.take(i)] + tail).last() == tail.last());
    }
}

/// A panel's class name holds no `::`.
pub proof fn lemma_klass_has_no_path_separator(path: Seq<char>)
    ensures
        !contains_seq(split_str(path, "::"@).last(), "::"@),
{
    reveal_strlit("::");
    lemma_last_piece_has_no_separator(path, "::"@);
}

} // verus!
