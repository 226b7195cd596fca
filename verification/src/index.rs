//! Index of positions in the rendered conversation list, for fast lookups while
//! updates stream in.
use vstd::prelude::*;
use vstd::hash_map::StringHashMap;

verus! {

/// Where tool calls and the streaming items sit in the rendered list.
pub struct UpdateStateIndex {
    /// Maps a tool call id to its position in the rendered list.
    tool_call_positions: StringHashMap<usize>,
    /// Position of the last agent message (for appending chunks).
    last_message_index: Option<usize>,
    /// Position of the last agent thought (for appending chunks).
    last_thought_index: Option<usize>,
    /// Position of the last user message (for merging consecutive chunks).
    last_user_message_index: Option<usize>,
}

/// The abstract state of an `UpdateStateIndex`.
pub struct IndexView {
    pub tool_calls: Map<Seq<char>, usize>,
    pub last_message: Option<usize>,
    pub last_thought: Option<usize>,
    pub last_user_message: Option<usize>,
}

impl View for UpdateStateIndex {
    type V = IndexView;

    closed spec fn view(&self) -> IndexView {
        IndexView {
            tool_calls: self.tool_call_positions@,
            last_message: self.last_message_index,
            last_thought: self.last_thought_index,
            last_user_message: self.last_user_message_index,
        }
    }
}

impl IndexView {
    /// The view of a fresh index: nothing tracked.
    pub open spec fn empty() -> IndexView {
        IndexView {
            tool_calls: Map::empty(),
            last_message: None,
            last_thought: None,
            last_user_message: None,
        }
    }
}

impl UpdateStateIndex {
    /// An empty index.
    pub fn new() -> (r: Self)
        ensures
            r@ == IndexView::empty(),
    {
        UpdateStateIndex {
            tool_call_positions: StringHashMap::new(),
            last_message_index: None,
            last_thought_index: None,
            last_user_message_index: None,
        }
    }

    /// Records that the tool call `tool_call_id` sits at `index`.
    pub fn register_tool_call(&mut self, tool_call_id: String, index: usize)
        ensures
            final(self)@ == apply_call(old(self)@, IndexCall::RegisterToolCall(tool_call_id@, index)),
            final(self)@ == (IndexView {
                tool_calls: old(self)@.tool_calls.insert(tool_call_id@, index),
                ..old(self)@
            }),
    {
        self.tool_call_positions.insert(tool_call_id, index);
    }

    /// Records that the tool call `tool_call_id` moved to `new_index`.
    pub fn update_tool_call_position(&mut self, tool_call_id: &str, new_index: usize)
        ensures
            final(self)@ == apply_call(old(self)@, IndexCall::UpdateToolCallPosition(tool_call_id@, new_index)),
            final(self)@ == (IndexView {
                tool_calls: old(self)@.tool_calls.insert(tool_call_id@, new_index),
                ..old(self)@
            }),
    {
        self.tool_call_positions.insert(tool_call_id.to_owned(), new_index);
    }

    /// Where the tool call `tool_call_id` sits, if it is known.
    pub fn find_tool_call(&self, tool_call_id: &str) -> (r: Option<usize>)
        ensures
            r == (if self@.tool_calls.contains_key(tool_call_id@) {
                Some(self@.tool_calls[tool_call_id@])
            } else {
                None
            }),
    {
        match self.tool_call_positions.get(tool_call_id) {
            Some(i) => Some(*i),
            None => None,
        }
    }

    /// Forgets the tool call `tool_call_id`.
    pub fn remove_tool_call(&mut self, tool_call_id: &str)
        ensures
            final(self)@ == apply_call(old(self)@, IndexCall::RemoveToolCall(tool_call_id@)),
            final(self)@ == (IndexView {
                tool_calls: old(self)@.tool_calls.remove(tool_call_id@),
                ..old(self)@
            }),
    {
        self.tool_call_positions.remove(tool_call_id);
    }

    /// Records the position of the last agent message.
    pub fn set_last_message(&mut self, index: usize)
        ensures
            final(self)@ == apply_call(old(self)@, IndexCall::SetLastMessage(index)),
            final(self)@ == (IndexView { last_message: Some(index), ..old(self)@ }),
    {
        self.last_message_index = Some(index);
    }

    /// Position of the last agent message.
    pub fn last_message(&self) -> (r: Option<usize>)
        ensures
            r == self@.last_message,
    {
        self.last_message_index
    }

    /// Records the position of the last agent thought.
    pub fn set_last_thought(&mut self, index: usize)
        ensures
            final(self)@ == apply_call(old(self)@, IndexCall::SetLastThought(index)),
            final(self)@ == (IndexView { last_thought: Some(index), ..old(self)@ }),
    {
        self.last_thought_index = Some(index);
    }

    /// Position of the last agent thought.
    pub fn last_thought(&self) -> (r: Option<usize>)
        ensures
            r == self@.last_thought,
    {
        self.last_thought_index
    }

    /// Stops tracking the last agent message and thought.
    pub fn clear_streaming_state(&mut self)
        ensures
            final(self)@ == apply_call(old(self)@, IndexCall::ClearStreamingState),
            final(self)@ == (IndexView { last_message: None, last_thought: None, ..old(self)@ }),
    {
        self.last_message_index = None;
        self.last_thought_index = None;
    }

    /// Records the position of the last user message.
    pub fn set_last_user_message(&mut self, index: usize)
        ensures
            final(self)@ == apply_call(old(self)@, IndexCall::SetLastUserMessage(index)),
            final(self)@ == (IndexView { last_user_message: Some(index), ..old(self)@ }),
    {
        self.last_user_message_index = Some(index);
    }

    /// Position of the last user message.
    pub fn last_user_message(&self) -> (r: Option<usize>)
        ensures
            r == self@.last_user_message,
    {
        self.last_user_message_index
    }

    /// Stops tracking the last user message.
    pub fn clear_user_message_state(&mut self)
        ensures
            final(self)@ == apply_call(old(self)@, IndexCall::ClearUserMessageState),
            final(self)@ == (IndexView { last_user_message: None, ..old(self)@ }),
    {
        self.last_user_message_index = None;
    }

    /// Forgets everything.
    pub fn clear(&mut self)
        ensures
            final(self)@ == apply_call(old(self)@, IndexCall::Clear),
            final(self)@ == IndexView::empty(),
    {
        self.tool_call_positions.clear();
        self.last_message_index = None;
        self.last_thought_index = None;
        self.last_user_message_index = None;
    }
}

impl Default for UpdateStateIndex {
    fn default() -> (r: Self)
        ensures
            r@ == IndexView::empty(),
    {
        UpdateStateIndex::new()
    }
}

// ---------------------------------------------------------------------------
// Laws
// ---------------------------------------------------------------------------

/// After registering a tool call, looking it up gives the registered position.
pub proof fn lemma_find_after_register(v: IndexView, id: Seq<char>, index: usize)
    ensures
        v.tool_calls.insert(id, index).contains_key(id),
        v.tool_calls.insert(id, index)[id] == index,
{
}

/// Registering one tool call leaves every other tool call where it was.
pub proof fn lemma_register_keeps_others(v: IndexView, id: Seq<char>, index: usize, other: Seq<char>)
    requires
        other != id,
    ensures
        v.tool_calls.insert(id, index).contains_key(other) == v.tool_calls.contains_key(other),
        v.tool_calls.contains_key(other) ==> v.tool_calls.insert(id, index)[other]
            == v.tool_calls[other],
{
}

/// After removing a tool call, looking it up finds nothing, and others stay.
pub proof fn lemma_find_after_remove(v: IndexView, id: Seq<char>, other: Seq<char>)
    requires
        other != id,
    ensures
        !v.tool_calls.remove(id).contains_key(id),
        v.tool_calls.remove(id).contains_key(other) == v.tool_calls.contains_key(other),
        v.tool_calls.contains_key(other) ==> v.tool_calls.remove(id)[other] == v.tool_calls[other],
{
}

} // verus!

verus! {

// ---------------------------------------------------------------------------
// Sequences of calls
// ---------------------------------------------------------------------------

/// A call that changes an index, with its arguments (by their views).
pub enum IndexCall {
    RegisterToolCall(Seq<char>, usize),
    UpdateToolCallPosition(Seq<char>, usize),
    RemoveToolCall(Seq<char>),
    SetLastMessage(usize),
    SetLastThought(usize),
    ClearStreamingState,
    SetLastUserMessage(usize),
    ClearUserMessageState,
    Clear,
}

/// The index after one call: each arm is what the method of that name ensures.
pub open spec fn apply_call(v: IndexView, c: IndexCall) -> IndexView {
    match c {
        IndexCall::RegisterToolCall(id, i) => IndexView { tool_calls: v.tool_calls.insert(id, i), ..v },
        IndexCall::UpdateToolCallPosition(id, i) => IndexView {
            tool_calls: v.tool_calls.insert(id, i),
            ..v
        },
        IndexCall::RemoveToolCall(id) => IndexView { tool_calls: v.tool_calls.remove(id), ..v },
        IndexCall::SetLastMessage(i) => IndexView { last_message: Some(i), ..v },
        IndexCall::SetLastThought(i) => IndexView { last_thought: Some(i), ..v },
        IndexCall::ClearStreamingState => IndexView { last_message: None, last_thought: None, ..v },
        IndexCall::SetLastUserMessage(i) => IndexView { last_user_message: Some(i), ..v },
        IndexCall::ClearUserMessageState => IndexView { last_user_message: None, ..v },
        IndexCall::Clear => IndexView::empty(),
    }
}

/// The index after the calls `cs`, in order.
pub open spec fn apply_calls(v: IndexView, cs: Seq<IndexCall>) -> IndexView
    decreases cs.len(),
{
    if cs.len() == 0 {
        v
    } else {
        apply_call(apply_calls(v, cs.drop_last()), cs.last())
    }
}

/// What the latest of the calls `cs` that decides tool call `id` left: `Some(Some(i))`
/// for a register or position update to `i`, `Some(None)` for a removal or a full clear,
/// `None` when no call names it.
pub open spec fn latest_position(cs: Seq<IndexCall>, id: Seq<char>) -> Option<Option<usize>>
    decreases cs.len(),
{
    if cs.len() == 0 {
        None
    } else {
        match cs.last() {
            IndexCall::RegisterToolCall(x, i) => if x == id {
                Some(Some(i))
            } else {
                latest_position(cs.drop_last(), id)
            },
            IndexCall::UpdateToolCallPosition(x, i) => if x == id {
                Some(Some(i))
            } else {
                latest_position(cs.drop_last(), id)
            },
            IndexCall::RemoveToolCall(x) => if x == id {
                Some(None)
            } else {
                latest_position(cs.drop_last(), id)
            },
            IndexCall::Clear => Some(None),
            _ => latest_position(cs.drop_last(), id),
        }
    }
}

/// What the latest of the calls that decide the tracked agent message left.
pub open spec fn latest_message(cs: Seq<IndexCall>) -> Option<Option<usize>>
    decreases cs.len(),
{
    if cs.len() == 0 {
        None
    } else {
        match cs.last() {
            IndexCall::SetLastMessage(i) => Some(Some(i)),
            IndexCall::ClearStreamingState => Some(None),
            IndexCall::Clear => Some(None),
            _ => latest_message(cs.drop_last()),
        }
    }
}

/// What the latest of the calls that decide the tracked agent thought left.
pub open spec fn latest_thought(cs: Seq<IndexCall>) -> Option<Option<usize>>
    decreases cs.len(),
{
    if cs.len() == 0 {
        None
    } else {
        match cs.last() {
            IndexCall::SetLastThought(i) => Some(Some(i)),
            IndexCall::ClearStreamingState => Some(None),
            IndexCall::Clear => Some(None),
            _ => latest_thought(cs.drop_last()),
        }
    }
}

/// What the latest of the calls that decide the tracked user message left.
pub open spec fn latest_user_message(cs: Seq<IndexCall>) -> Option<Option<usize>>
    decreases cs.len(),
{
    if cs.len() == 0 {
        None
    } else {
        match cs.last() {
            IndexCall::SetLastUserMessage(i) => Some(Some(i)),
            IndexCall::ClearUserMessageState => Some(None),
            IndexCall::Clear => Some(None),
            _ => latest_user_message(cs.drop_last()),
        }
    }
}

/// The value that a latest-call answer leaves, or `before` when no call decided it.
pub open spec fn decided<A>(latest: Option<Option<A>>, before: Option<A>) -> Option<A> {
    match latest {
        Some(x) => x,
        None => before,
    }
}

/// After any calls, a tool call is found at the position that the latest call naming it
/// gave (register or position update), and not found when that call removed it or the
/// index was cleared; calls on other ids and on the tracked items leave it alone.
pub proof fn lemma_find_after_calls(v: IndexView, cs: Seq<IndexCall>, id: Seq<char>)
    ensures
        (if apply_calls(v, cs).tool_calls.contains_key(id) {
            Some(apply_calls(v, cs).tool_calls[id])
        } else {
            None
        }) == decided(latest_position(cs, id), if v.tool_calls.contains_key(id) {
            Some(v.tool_calls[id])
        } else {
            None
        }),
    decreases cs.len(),
{
    if cs.len() > 0 {
        lemma_find_after_calls(v, cs.drop_last(), id);
    }
}

/// After any calls, the tracked agent message is the one the latest `set_last_message`
/// gave, unless `clear_streaming_state` (or a full clear) came after it.
pub proof fn lemma_last_message_after_calls(v: IndexView, cs: Seq<IndexCall>)
    ensures
        apply_calls(v, cs).last_message == decided(latest_message(cs), v.last_message),
    decreases cs.len(),
{
    if cs.len() > 0 {
        lemma_last_message_after_calls(v, cs.drop_last());
    }
}

/// After any calls, the tracked agent thought is the one the latest `set_last_thought`
/// gave, unless `clear_streaming_state` (or a full clear) came after it.
pub proof fn lemma_last_thought_after_calls(v: IndexView, cs: Seq<IndexCall>)
    ensures
        apply_calls(v, cs).last_thought == decided(latest_thought(cs), v.last_thought),
    decreases cs.len(),
{
    if cs.len() > 0 {
        lemma_last_thought_after_calls(v, cs.drop_last());
    }
}

/// After any calls, the tracked user message is the one the latest
/// `set_last_user_message` gave, unless `clear_user_message_state` (or a full clear) came
/// after it.
pub proof fn lemma_last_user_message_after_calls(v: IndexView, cs: Seq<IndexCall>)
    ensures
        apply_calls(v, cs).last_user_message == decided(latest_user_message(cs), v.last_user_message),
    decreases cs.len(),
{
    if cs.len() > 0 {
        lemma_last_user_message_after_calls(v, cs.drop_last());
    }
}

/// From a new index, a tool call is found exactly where the latest call naming it put it.
pub proof fn lemma_new_index_after_calls(cs: Seq<IndexCall>, id: Seq<char>)
    ensures
        (if apply_calls(IndexView::empty(), cs).tool_calls.contains_key(id) {
            Some(apply_calls(IndexView::empty(), cs).tool_calls[id])
        } else {
            None
        }) == decided(latest_position(cs, id), None),
        apply_calls(IndexView::empty(), cs).last_message == decided(latest_message(cs), None),
        apply_calls(IndexView::empty(), cs).last_thought == decided(latest_thought(cs), None),
        apply_calls(IndexView::empty(), cs).last_user_message == decided(latest_user_message(cs), None),
{
    lemma_find_after_calls(IndexView::empty(), cs, id);
    lemma_last_message_after_calls(IndexView::empty(), cs);
    lemma_last_thought_after_calls(IndexView::empty(), cs);
    lemma_last_user_message_after_calls(IndexView::empty(), cs);
}

} // verus!
