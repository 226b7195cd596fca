//! The rendered list of a conversation and how session updates change it.
use vstd::prelude::*;
use crate::content::{
    clone_opt, content_text, content_text_defined, extract_text_from_content, link_resource,
    opt_view, ContentBlock, ResourceInfo, ResourceView,
};
use crate::status::{ToolCallStatus, ToolKind};
use crate::text::{concat2, concat3, decimal, decimal_string, string_of};

verus! {

// ---------------------------------------------------------------------------
// Data
// ---------------------------------------------------------------------------

/// An agent message made of streamed chunks.
pub struct AgentMessageData {
    pub session_id: String,
    pub chunks: Vec<ContentBlock>,
    pub agent_name: Option<String>,
    pub is_complete: bool,
}

/// A tool call, with the fields the conversation shows.
pub struct ToolCall {
    pub tool_call_id: String,
    pub title: String,
    pub kind: ToolKind,
    pub status: ToolCallStatus,
    /// Number of content items the tool call carries.
    pub content_count: usize,
}

/// The fields an update to a tool call may change.
pub struct ToolCallUpdateFields {
    pub title: Option<String>,
    pub kind: Option<ToolKind>,
    pub status: Option<ToolCallStatus>,
    pub content_count: Option<usize>,
}

/// An update that an agent session sends.
pub enum SessionUpdate {
    UserMessageChunk(ContentBlock),
    AgentMessageChunk(ContentBlock),
    AgentThoughtChunk(ContentBlock),
    ToolCall(ToolCall),
    ToolCallUpdate { tool_call_id: String, fields: ToolCallUpdateFields },
    Plan { entry_count: usize },
    AvailableCommandsUpdate { command_count: usize },
    CurrentModeUpdate { mode_id: String },
    /// An update of a kind the conversation does not show.
    Other,
}

/// One item of the rendered conversation.
pub enum RenderedItem {
    UserMessage { contents: Vec<ContentBlock>, resources: Vec<ResourceInfo> },
    AgentMessage { id: String, data: AgentMessageData },
    AgentThought { text: String, open: bool },
    Plan { entry_count: usize },
    ToolCall { call: ToolCall, open: bool },
    InfoUpdate { text: String },
    PermissionRequest { permission_id: String },
    DiffSummary,
}

// ---------------------------------------------------------------------------
// Views
// ---------------------------------------------------------------------------

/// The abstract value of an agent message.
pub struct AgentMessageView {
    pub session_id: Seq<char>,
    pub chunks: Seq<ContentBlock>,
    pub agent_name: Option<Seq<char>>,
    pub is_complete: bool,
}

/// The abstract value of a tool call.
pub struct ToolCallView {
    pub id: Seq<char>,
    pub title: Seq<char>,
    pub kind: ToolKind,
    pub status: ToolCallStatus,
    pub content_count: nat,
}

/// The abstract value of a rendered item.
pub enum ItemView {
    UserMessage { contents: Seq<ContentBlock>, resources: Seq<ResourceView> },
    AgentMessage { id: Seq<char>, data: AgentMessageView },
    AgentThought { text: Seq<char>, open: bool },
    Plan { entry_count: nat },
    ToolCall { call: ToolCallView, open: bool },
    InfoUpdate { text: Seq<char> },
    PermissionRequest { permission_id: Seq<char> },
    DiffSummary,
}

impl View for AgentMessageData {
    type V = AgentMessageView;

    open spec fn view(&self) -> AgentMessageView {
        AgentMessageView {
            session_id: self.session_id@,
            chunks: self.chunks@,
            agent_name: opt_view(self.agent_name),
            is_complete: self.is_complete,
        }
    }
}

impl View for ToolCall {
    type V = ToolCallView;

    open spec fn view(&self) -> ToolCallView {
        ToolCallView {
            id: self.tool_call_id@,
            title: self.title@,
            kind: self.kind,
            status: self.status,
            content_count: self.content_count as nat,
        }
    }
}

/// The views of a sequence of resources.
pub open spec fn resource_views(s: Seq<ResourceInfo>) -> Seq<ResourceView> {
    s.map_values(|r: ResourceInfo| r@)
}

impl View for RenderedItem {
    type V = ItemView;

    open spec fn view(&self) -> ItemView {
        match self {
            RenderedItem::UserMessage { contents, resources } => ItemView::UserMessage {
                contents: contents@,
                resources: resource_views(resources@),
            },
            RenderedItem::AgentMessage { id, data } => ItemView::AgentMessage {
                id: id@,
                data: data@,
            },
            RenderedItem::AgentThought { text, open } => ItemView::AgentThought {
                text: text@,
                open: *open,
            },
            RenderedItem::Plan { entry_count } => ItemView::Plan {
                entry_count: *entry_count as nat,
            },
            RenderedItem::ToolCall { call, open } => ItemView::ToolCall { call: call@, open: *open },
            RenderedItem::InfoUpdate { text } => ItemView::InfoUpdate { text: text@ },
            RenderedItem::PermissionRequest { permission_id } => ItemView::PermissionRequest {
                permission_id: permission_id@,
            },
            RenderedItem::DiffSummary => ItemView::DiffSummary,
        }
    }
}

/// The views of a sequence of rendered items.
pub open spec fn item_views(s: Seq<RenderedItem>) -> Seq<ItemView> {
    s.map_values(|i: RenderedItem| i@)
}

// ---------------------------------------------------------------------------
// Specifications of the item operations
// ---------------------------------------------------------------------------

/// The tool call after an update: every field the update carries replaces the old one.
pub open spec fn apply_fields(c: ToolCallView, f: ToolCallUpdateFields) -> ToolCallView {
    ToolCallView {
        id: c.id,
        title: match f.title {
            Some(t) => t@,
            None => c.title,
        },
        kind: match f.kind {
            Some(k) => k,
            None => c.kind,
        },
        status: match f.status {
            Some(s) => s,
            None => c.status,
        },
        content_count: match f.content_count {
            Some(n) => n as nat,
            None => c.content_count,
        },
    }
}

/// The tool call an update creates when no call with its id exists: only an update
/// with a title makes one; missing fields take their defaults.
pub open spec fn call_from_update(id: Seq<char>, f: ToolCallUpdateFields) -> Option<ToolCallView> {
    match f.title {
        Some(t) => Some(
            ToolCallView {
                id,
                title: t@,
                kind: match f.kind {
                    Some(k) => k,
                    None => ToolKind::Other,
                },
                status: match f.status {
                    Some(s) => s,
                    None => ToolCallStatus::Pending,
                },
                content_count: match f.content_count {
                    Some(n) => n as nat,
                    None => 0,
                },
            },
        ),
        None => None,
    }
}

/// An agent message marked complete; other items unchanged.
pub open spec fn completed(i: ItemView) -> ItemView {
    match i {
        ItemView::AgentMessage { id, data } => ItemView::AgentMessage {
            id,
            data: AgentMessageView { is_complete: true, ..data },
        },
        _ => i,
    }
}

/// The list with its last item marked complete.
pub open spec fn complete_last(s: Seq<ItemView>) -> Seq<ItemView> {
    if s.len() == 0 {
        s
    } else {
        s.update(s.len() - 1, completed(s.last()))
    }
}

/// The user message a chunk starts.
pub open spec fn new_user_message(c: ContentBlock) -> ItemView {
    ItemView::UserMessage {
        contents: seq![c],
        resources: match link_resource(c) {
            Some(r) => seq![r],
            None => Seq::empty(),
        },
    }
}

/// A user message with one more chunk.
pub open spec fn user_message_with(i: ItemView, c: ContentBlock) -> ItemView {
    match i {
        ItemView::UserMessage { contents, resources } => ItemView::UserMessage {
            contents: contents.push(c),
            resources: match link_resource(c) {
                Some(r) => resources.push(r),
                None => resources,
            },
        },
        _ => i,
    }
}

/// An agent message with one more chunk.
pub open spec fn agent_message_with(i: ItemView, c: ContentBlock) -> ItemView {
    match i {
        ItemView::AgentMessage { id, data } => ItemView::AgentMessage {
            id,
            data: AgentMessageView { chunks: data.chunks.push(c), ..data },
        },
        _ => i,
    }
}

/// An agent message that takes the agent's name when it has none yet.
pub open spec fn named_message(i: ItemView, name: Option<Seq<char>>) -> ItemView {
    match i {
        ItemView::AgentMessage { id, data } => if name is Some && data.agent_name is None {
            ItemView::AgentMessage { id, data: AgentMessageView { agent_name: name, ..data } }
        } else {
            i
        },
        _ => i,
    }
}

/// An agent thought with more text.
pub open spec fn thought_with(i: ItemView, t: Seq<char>) -> ItemView {
    match i {
        ItemView::AgentThought { text, open } => ItemView::AgentThought { text: text + t, open },
        _ => i,
    }
}

/// The id of the agent message started by update number `n`.
pub open spec fn message_id(n: nat) -> Seq<char> {
    "agent-msg-"@ + decimal(n)
}

/// The new agent message that a chunk starts.
pub open spec fn new_agent_message(
    n: nat,
    session_id: Seq<char>,
    agent_name: Option<Seq<char>>,
    c: ContentBlock,
) -> ItemView {
    ItemView::AgentMessage {
        id: message_id(n),
        data: AgentMessageView {
            session_id,
            chunks: seq![c],
            agent_name,
            is_complete: false,
        },
    }
}

/// The line that reports the number of available commands.
pub open spec fn commands_text(n: nat) -> Seq<char> {
    "📋 Available Commands: "@ + decimal(n) + " commands"@
}

/// The line that reports a mode change.
pub open spec fn mode_text(mode: Seq<char>) -> Seq<char> {
    "🔄 Mode: "@ + mode
}

// ---------------------------------------------------------------------------
// Item operations
// ---------------------------------------------------------------------------

/// A copy of a tool call.
pub fn clone_tool_call(c: &ToolCall) -> (r: ToolCall)
    ensures
        r@ == c@,
{
    ToolCall {
        tool_call_id: string_of(c.tool_call_id.as_str()),
        title: string_of(c.title.as_str()),
        kind: c.kind,
        status: c.status,
        content_count: c.content_count,
    }
}

impl ToolCall {
    /// Applies the fields an update carries (`ToolCall::update` of the protocol).
    pub fn update(&mut self, fields: ToolCallUpdateFields)
        ensures
            final(self)@ == apply_fields(old(self)@, fields),
    {
        match fields.title {
            Some(t) => {
                self.title = t;
            },
            None => {},
        }
        match fields.kind {
            Some(k) => {
                self.kind = k;
            },
            None => {},
        }
        match fields.status {
            Some(s) => {
                self.status = s;
            },
            None => {},
        }
        match fields.content_count {
            Some(n) => {
                self.content_count = n;
            },
            None => {},
        }
    }

    /// The tool call an update describes, when it carries a title
    /// (`ToolCall::try_from(ToolCallUpdate)` of the protocol).
    pub fn try_from_update(tool_call_id: String, fields: ToolCallUpdateFields) -> (r: Option<ToolCall>)
        ensures
            match r {
                Some(c) => call_from_update(tool_call_id@, fields) == Some(c@),
                None => call_from_update(tool_call_id@, fields) is None,
            },
    {
        match fields.title {
            Some(title) => Some(
                ToolCall {
                    tool_call_id,
                    title,
                    kind: match fields.kind {
                        Some(k) => k,
                        None => ToolKind::Other,
                    },
                    status: match fields.status {
                        Some(s) => s,
                        None => ToolCallStatus::Pending,
                    },
                    content_count: match fields.content_count {
                        Some(n) => n,
                        None => 0,
                    },
                },
            ),
            None => None,
        }
    }
}

impl RenderedItem {
    /// Appends an agent message chunk; true when this item is an agent message.
    pub fn try_append_agent_message_chunk(&mut self, chunk: ContentBlock) -> (r: bool)
        ensures
            r == (old(self)@ is AgentMessage),
            final(self)@ == agent_message_with(old(self)@, chunk),
    {
        match self {
            RenderedItem::AgentMessage { data, .. } => {
                data.chunks.push(chunk);
                true
            },
            _ => false,
        }
    }

    /// Appends text to an agent thought; true when this item is an agent thought.
    pub fn try_append_agent_thought_chunk(&mut self, text: String) -> (r: bool)
        ensures
            r == (old(self)@ is AgentThought),
            final(self)@ == thought_with(old(self)@, text@),
    {
        match self {
            RenderedItem::AgentThought { text: existing, .. } => {
                existing.append(text.as_str());
                true
            },
            _ => false,
        }
    }

    /// Appends a user message chunk (and the resource it links, if any); true when this
    /// item is a user message.
    pub fn try_append_user_message_chunk(&mut self, chunk: ContentBlock) -> (r: bool)
        ensures
            r == (old(self)@ is UserMessage),
            final(self)@ == user_message_with(old(self)@, chunk),
    {
        match self {
            RenderedItem::UserMessage { contents, resources } => {
                let res = ResourceInfo::from_content_block(&chunk);
                contents.push(chunk);
                match res {
                    Some(r) => {
                        let ghost before = resources@;
                        resources.push(r);
                        proof {
                            assert(resource_views(resources@) =~= resource_views(before).push(
                                r@,
                            ));
                        }
                    },
                    None => {},
                }
                true
            },
            _ => false,
        }
    }

    /// Marks an agent message complete (no more chunks expected); other items stay.
    pub fn mark_complete(&mut self)
        ensures
            final(self)@ == completed(old(self)@),
    {
        match self {
            RenderedItem::AgentMessage { data, .. } => {
                data.is_complete = true;
            },
            _ => {},
        }
    }

    /// Whether this item takes agent message chunks.
    pub fn can_accept_agent_message_chunk(&self) -> (r: bool)
        ensures
            r == (self@ is AgentMessage),
    {
        match self {
            RenderedItem::AgentMessage { .. } => true,
            _ => false,
        }
    }

    /// Whether this item takes agent thought chunks.
    pub fn can_accept_agent_thought_chunk(&self) -> (r: bool)
        ensures
            r == (self@ is AgentThought),
    {
        match self {
            RenderedItem::AgentThought { .. } => true,
            _ => false,
        }
    }

    /// Whether this item takes user message chunks.
    pub fn can_accept_user_message_chunk(&self) -> (r: bool)
        ensures
            r == (self@ is UserMessage),
    {
        match self {
            RenderedItem::UserMessage { .. } => true,
            _ => false,
        }
    }
}

/// The user message that a chunk starts, with the resource it links, if any.
pub fn create_user_message(chunk: ContentBlock) -> (r: RenderedItem)
    ensures
        r@ == new_user_message(chunk),
{
    let res = ResourceInfo::from_content_block(&chunk);
    let mut resources: Vec<ResourceInfo> = Vec::new();
    match res {
        Some(r) => {
            resources.push(r);
        },
        None => {},
    }
    let mut contents: Vec<ContentBlock> = Vec::new();
    contents.push(chunk);
    let item = RenderedItem::UserMessage { contents, resources };
    proof {
        assert(item@->UserMessage_contents =~= seq![chunk]);
        assert(item@->UserMessage_resources =~= new_user_message(chunk)->UserMessage_resources);
    }
    item
}

/// A new agent message holding one chunk.
pub fn create_agent_message_data(
    chunk: ContentBlock,
    session_id: Option<&str>,
    agent_name: Option<&str>,
) -> (r: AgentMessageData)
    ensures
        r@ == (AgentMessageView {
            session_id: match session_id {
                Some(s) => s@,
                None => "default-session"@,
            },
            chunks: seq![chunk],
            agent_name: match agent_name {
                Some(n) => Some(n@),
                None => None,
            },
            is_complete: false,
        }),
{
    let sid = match session_id {
        Some(s) => string_of(s),
        None => string_of("default-session"),
    };
    let mut chunks: Vec<ContentBlock> = Vec::new();
    chunks.push(chunk);
    let name = match agent_name {
        Some(n) => Some(string_of(n)),
        None => None,
    };
    let r = AgentMessageData { session_id: sid, chunks, agent_name: name, is_complete: false };
    assert(r@.chunks =~= seq![chunk]);
    r
}

/// The id of the agent message started by update number `n`.
pub fn agent_message_id(n: usize) -> (r: String)
    ensures
        r@ == message_id(n as nat),
{
    let d = decimal_string(n);
    concat2("agent-msg-", d.as_str())
}

/// Marks the last item complete, if it is an agent message.
pub fn complete_last_item(items: &mut Vec<RenderedItem>)
    ensures
        item_views(final(items)@) == complete_last(item_views(old(items)@)),
{
    let n = items.len();
    if n > 0 {
        items[n - 1].mark_complete();
        proof {
            assert(item_views(items@) =~= complete_last(item_views(old(items)@)));
        }
    } else {
        assert(item_views(items@) =~= complete_last(item_views(old(items)@)));
    }
}

} // verus!

verus! {

// ---------------------------------------------------------------------------
// The indexed update processor
// ---------------------------------------------------------------------------

/// What the processor knows about the session whose updates it handles.
pub struct UpdateProcessor {
    /// The session the updates belong to, if known.
    pub session_id: Option<String>,
    /// The agent's name, if the caller knows it.
    pub agent_name: Option<String>,
    /// The agent that the agent service reports for `session_id`, if any.
    pub session_agent_name: Option<String>,
    /// Number of the update being processed (names new agent messages).
    pub next_index: usize,
}

/// The abstract value of an `UpdateProcessor`.
pub struct ProcessorView {
    pub session_id: Option<Seq<char>>,
    pub agent_name: Option<Seq<char>>,
    pub session_agent_name: Option<Seq<char>>,
    pub next_index: nat,
}

impl View for UpdateProcessor {
    type V = ProcessorView;

    open spec fn view(&self) -> ProcessorView {
        ProcessorView {
            session_id: opt_view(self.session_id),
            agent_name: opt_view(self.agent_name),
            session_agent_name: opt_view(self.session_agent_name),
            next_index: self.next_index as nat,
        }
    }
}

impl ProcessorView {
    /// The agent name a new message gets: the known name, or else the one the agent
    /// service reports for the session.
    pub open spec fn resolved_agent_name(self) -> Option<Seq<char>> {
        if self.agent_name is Some {
            self.agent_name
        } else if self.session_id is Some {
            self.session_agent_name
        } else {
            None
        }
    }

    /// The session a new agent message belongs to.
    pub open spec fn message_session(self) -> Seq<char> {
        match self.session_id {
            Some(s) => s,
            None => "default-session"@,
        }
    }
}

/// Position `i` is given and holds a user message.
pub open spec fn holds_user_message(items: Seq<ItemView>, i: Option<usize>) -> bool {
    i is Some && i->0 < items.len() && items[i->0 as int] is UserMessage
}

/// Position `i` is given and holds an agent message.
pub open spec fn holds_agent_message(items: Seq<ItemView>, i: Option<usize>) -> bool {
    i is Some && i->0 < items.len() && items[i->0 as int] is AgentMessage
}

/// Position `i` is given and holds an agent thought.
pub open spec fn holds_thought(items: Seq<ItemView>, i: Option<usize>) -> bool {
    i is Some && i->0 < items.len() && items[i->0 as int] is AgentThought
}

/// The index with no streaming message or thought tracked.
pub open spec fn cleared_streaming(ix: crate::index::IndexView) -> crate::index::IndexView {
    crate::index::IndexView { last_message: None, last_thought: None, ..ix }
}

/// The index with no user message tracked.
pub open spec fn cleared_user(ix: crate::index::IndexView) -> crate::index::IndexView {
    crate::index::IndexView { last_user_message: None, ..ix }
}

/// Items and index after a user message chunk: merged into the tracked user message,
/// or a new user message (completing a streaming agent item first).
pub open spec fn user_chunk_spec(
    items: Seq<ItemView>,
    ix: crate::index::IndexView,
    c: ContentBlock,
) -> (Seq<ItemView>, crate::index::IndexView) {
    if holds_user_message(items, ix.last_user_message) {
        let k = ix.last_user_message->0 as int;
        (items.update(k, user_message_with(items[k], c)), ix)
    } else {
        let streaming = ix.last_message is Some || ix.last_thought is Some;
        let items1 = if streaming {
            complete_last(items)
        } else {
            items
        };
        let ix1 = if streaming {
            cleared_streaming(ix)
        } else {
            ix
        };
        (
            items1.push(new_user_message(c)),
            crate::index::IndexView { last_user_message: Some(items1.len() as usize), ..ix1 },
        )
    }
}

/// Items and index after an agent message chunk: appended to the tracked agent message
/// (which takes the agent's name if it has none), or a new agent message.
pub open spec fn agent_chunk_spec(
    items: Seq<ItemView>,
    ix: crate::index::IndexView,
    p: ProcessorView,
    c: ContentBlock,
) -> (Seq<ItemView>, crate::index::IndexView) {
    let ix0 = cleared_user(ix);
    if holds_agent_message(items, ix0.last_message) {
        let k = ix0.last_message->0 as int;
        (
            items.update(k, named_message(agent_message_with(items[k], c), p.resolved_agent_name())),
            ix0,
        )
    } else {
        let items1 = if ix0.last_thought is Some {
            complete_last(items)
        } else {
            items
        };
        let n = items1.len() as usize;
        (
            items1.push(
                new_agent_message(p.next_index, p.message_session(), p.resolved_agent_name(), c),
            ),
            crate::index::IndexView { last_message: Some(n), last_thought: Some(n), ..ix0 },
        )
    }
}

/// Items and index after an agent thought chunk: its text appended to the tracked
/// thought, or a new thought.
pub open spec fn thought_chunk_spec(
    items: Seq<ItemView>,
    ix: crate::index::IndexView,
    c: ContentBlock,
) -> (Seq<ItemView>, crate::index::IndexView) {
    let ix0 = cleared_user(ix);
    let t = content_text(c);
    if holds_thought(items, ix0.last_thought) {
        let k = ix0.last_thought->0 as int;
        (items.update(k, thought_with(items[k], t)), ix0)
    } else {
        let items1 = if ix0.last_message is Some {
            complete_last(items)
        } else {
            items
        };
        let n = items1.len() as usize;
        (
            items1.push(ItemView::AgentThought { text: t, open: false }),
            crate::index::IndexView { last_thought: Some(n), last_message: Some(n), ..ix0 },
        )
    }
}

/// Where the index says the tool call `id` is, when that position holds a tool call.
pub open spec fn tool_call_slot(items: Seq<ItemView>, ix: crate::index::IndexView, id: Seq<char>) -> Option<int> {
    if ix.tool_calls.contains_key(id) && ix.tool_calls[id] < items.len() && items[ix.tool_calls[id] as int] is ToolCall {
        Some(ix.tool_calls[id] as int)
    } else {
        None
    }
}

/// Items and index after a tool call: the indexed tool call replaced, or a new one
/// registered at the end (completing the last item first).
pub open spec fn tool_call_spec(
    items: Seq<ItemView>,
    ix: crate::index::IndexView,
    c: ToolCallView,
) -> (Seq<ItemView>, crate::index::IndexView) {
    let ix0 = cleared_user(ix);
    match tool_call_slot(items, ix0, c.id) {
        Some(k) => (items.update(k, ItemView::ToolCall { call: c, open: items[k]->ToolCall_open }), ix0),
        None => {
            let items1 = complete_last(items);
            let n = items1.len() as usize;
            (
                items1.push(ItemView::ToolCall { call: c, open: false }),
                crate::index::IndexView { tool_calls: ix0.tool_calls.insert(c.id, n), ..cleared_streaming(ix0) },
            )
        },
    }
}

/// Items and index after a tool call update: applied to the indexed tool call, or,
/// when none is indexed, a tool call made from the update (if it has a title).
pub open spec fn tool_call_update_spec(
    items: Seq<ItemView>,
    ix: crate::index::IndexView,
    id: Seq<char>,
    f: ToolCallUpdateFields,
) -> (Seq<ItemView>, crate::index::IndexView) {
    match tool_call_slot(items, ix, id) {
        Some(k) => (
            items.update(k, ItemView::ToolCall {
                call: apply_fields(items[k]->ToolCall_call, f),
                open: items[k]->ToolCall_open,
            }),
            ix,
        ),
        None => match call_from_update(id, f) {
            Some(c) => (
                items.push(ItemView::ToolCall { call: c, open: false }),
                crate::index::IndexView { tool_calls: ix.tool_calls.insert(id, items.len() as usize), ..ix },
            ),
            None => (items, ix),
        },
    }
}

/// Items and index after an update that ends the streaming items and adds `item`.
pub open spec fn closing_spec(
    items: Seq<ItemView>,
    ix: crate::index::IndexView,
    item: ItemView,
) -> (Seq<ItemView>, crate::index::IndexView) {
    (complete_last(items).push(item), cleared_streaming(ix))
}

/// Items and index after any session update.
pub open spec fn process_spec(
    items: Seq<ItemView>,
    ix: crate::index::IndexView,
    p: ProcessorView,
    u: SessionUpdate,
) -> (Seq<ItemView>, crate::index::IndexView) {
    match u {
        SessionUpdate::UserMessageChunk(c) => user_chunk_spec(items, ix, c),
        SessionUpdate::AgentMessageChunk(c) => agent_chunk_spec(items, ix, p, c),
        SessionUpdate::AgentThoughtChunk(c) => thought_chunk_spec(items, ix, c),
        SessionUpdate::ToolCall(c) => tool_call_spec(items, ix, c@),
        SessionUpdate::ToolCallUpdate { tool_call_id, fields } => tool_call_update_spec(
            items,
            ix,
            tool_call_id@,
            fields,
        ),
        SessionUpdate::Plan { entry_count } => closing_spec(
            items,
            cleared_user(ix),
            ItemView::Plan { entry_count: entry_count as nat },
        ),
        SessionUpdate::AvailableCommandsUpdate { command_count } => closing_spec(
            items,
            ix,
            ItemView::InfoUpdate { text: commands_text(command_count as nat) },
        ),
        SessionUpdate::CurrentModeUpdate { mode_id } => closing_spec(
            items,
            ix,
            ItemView::InfoUpdate { text: mode_text(mode_id@) },
        ),
        SessionUpdate::Other => (items, ix),
    }
}

/// The text of every thought chunk in the update can be extracted.
pub open spec fn update_defined(u: SessionUpdate) -> bool {
    match u {
        SessionUpdate::AgentThoughtChunk(c) => content_text_defined(c),
        _ => true,
    }
}

/// The line that reports the number of available commands.
pub fn commands_info(n: usize) -> (r: String)
    ensures
        r@ == commands_text(n as nat),
{
    let d = decimal_string(n);
    concat3("📋 Available Commands: ", d.as_str(), " commands")
}

/// The line that reports a mode change.
pub fn mode_info(mode: &str) -> (r: String)
    ensures
        r@ == mode_text(mode@),
{
    concat2("🔄 Mode: ", mode)
}

impl RenderedItem {
    /// Gives an agent message the agent's name when it has none yet.
    pub fn fill_agent_name(&mut self, name: &Option<String>)
        ensures
            final(self)@ == named_message(old(self)@, opt_view(*name)),
    {
        match self {
            RenderedItem::AgentMessage { data, .. } => {
                match name {
                    Some(n) => {
                        if data.agent_name.is_none() {
                            data.agent_name = Some(string_of(n.as_str()));
                        }
                    },
                    None => {},
                }
            },
            _ => {},
        }
    }
}

impl UpdateProcessor {
    /// A processor for updates of the given session.
    pub fn new(
        session_id: Option<String>,
        agent_name: Option<String>,
        session_agent_name: Option<String>,
        next_index: usize,
    ) -> (r: Self)
        ensures
            r.session_id == session_id,
            r.agent_name == agent_name,
            r.session_agent_name == session_agent_name,
            r.next_index == next_index,
    {
        UpdateProcessor { session_id, agent_name, session_agent_name, next_index }
    }

    /// The agent name a new message gets.
    pub fn resolved_agent_name(&self) -> (r: Option<String>)
        ensures
            opt_view(r) == self@.resolved_agent_name(),
    {
        if self.agent_name.is_some() {
            clone_opt(&self.agent_name)
        } else if self.session_id.is_some() {
            clone_opt(&self.session_agent_name)
        } else {
            None
        }
    }

    /// Handles one session update, changing the rendered items and the index.
    pub fn process_update(
        &self,
        items: &mut Vec<RenderedItem>,
        index: &mut crate::index::UpdateStateIndex,
        update: SessionUpdate,
    )
        requires
            update_defined(update),
        ensures
            (item_views(final(items)@), final(index)@) == process_spec(
                item_views(old(items)@),
                old(index)@,
                self@,
                update,
            ),
    {
        match update {
            SessionUpdate::UserMessageChunk(c) => self.process_user_message_chunk(items, index, c),
            SessionUpdate::AgentMessageChunk(c) => self.process_agent_message_chunk(items, index, c),
            SessionUpdate::AgentThoughtChunk(c) => self.process_agent_thought_chunk(items, index, c),
            SessionUpdate::ToolCall(c) => self.process_tool_call(items, index, c),
            SessionUpdate::ToolCallUpdate { tool_call_id, fields } => self.process_tool_call_update(
                items,
                index,
                tool_call_id,
                fields,
            ),
            SessionUpdate::Plan { entry_count } => {
                index.clear_user_message_state();
                complete_last_item(items);
                index.clear_streaming_state();
                let ghost before = items@;
                items.push(RenderedItem::Plan { entry_count });
                assert(item_views(items@) =~= item_views(before).push(
                    ItemView::Plan { entry_count: entry_count as nat },
                ));
            },
            SessionUpdate::AvailableCommandsUpdate { command_count } => {
                complete_last_item(items);
                index.clear_streaming_state();
                let text = commands_info(command_count);
                let ghost before = items@;
                items.push(RenderedItem::InfoUpdate { text });
                assert(item_views(items@) =~= item_views(before).push(
                    ItemView::InfoUpdate { text: commands_text(command_count as nat) },
                ));
            },
            SessionUpdate::CurrentModeUpdate { mode_id } => {
                complete_last_item(items);
                index.clear_streaming_state();
                let text = mode_info(mode_id.as_str());
                let ghost before = items@;
                items.push(RenderedItem::InfoUpdate { text });
                assert(item_views(items@) =~= item_views(before).push(
                    ItemView::InfoUpdate { text: mode_text(mode_id@) },
                ));
            },
            SessionUpdate::Other => {},
        }
    }

    fn process_user_message_chunk(
        &self,
        items: &mut Vec<RenderedItem>,
        index: &mut crate::index::UpdateStateIndex,
        chunk: ContentBlock,
    )
        ensures
            (item_views(final(items)@), final(index)@) == user_chunk_spec(
                item_views(old(items)@),
                old(index)@,
                chunk,
            ),
    {
        let ghost v0 = item_views(items@);
        match index.last_user_message() {
            Some(last) => {
                if last < items.len() && items[last].can_accept_user_message_chunk() {
                    items[last].try_append_user_message_chunk(chunk);
                    assert(item_views(items@) =~= v0.update(
                        last as int,
                        user_message_with(v0[last as int], chunk),
                    ));
                    return ;
                }
            },
            None => {},
        }
        if index.last_message().is_some() || index.last_thought().is_some() {
            complete_last_item(items);
            index.clear_streaming_state();
        }
        let item = create_user_message(chunk);
        let new_index = items.len();
        let ghost before = items@;
        items.push(item);
        assert(item_views(items@) =~= item_views(before).push(new_user_message(chunk)));
        index.set_last_user_message(new_index);
    }

    fn process_agent_message_chunk(
        &self,
        items: &mut Vec<RenderedItem>,
        index: &mut crate::index::UpdateStateIndex,
        chunk: ContentBlock,
    )
        ensures
            (item_views(final(items)@), final(index)@) == agent_chunk_spec(
                item_views(old(items)@),
                old(index)@,
                self@,
                chunk,
            ),
    {
        index.clear_user_message_state();
        let resolved = self.resolved_agent_name();
        let ghost v0 = item_views(items@);
        match index.last_message() {
            Some(last) => {
                if last < items.len() && items[last].can_accept_agent_message_chunk() {
                    items[last].try_append_agent_message_chunk(chunk);
                    items[last].fill_agent_name(&resolved);
                    assert(item_views(items@) =~= v0.update(
                        last as int,
                        named_message(
                            agent_message_with(v0[last as int], chunk),
                            self@.resolved_agent_name(),
                        ),
                    ));
                    return ;
                }
            },
            None => {},
        }
        if index.last_thought().is_some() {
            complete_last_item(items);
        }
        let session: Option<&str> = match &self.session_id {
            Some(s) => Some(s.as_str()),
            None => None,
        };
        let name: Option<&str> = match &resolved {
            Some(n) => Some(n.as_str()),
            None => None,
        };
        let data = create_agent_message_data(chunk, session, name);
        let id = agent_message_id(self.next_index);
        let new_index = items.len();
        let ghost before = items@;
        items.push(RenderedItem::AgentMessage { id, data });
        assert(item_views(items@) =~= item_views(before).push(
            new_agent_message(
                self@.next_index,
                self@.message_session(),
                self@.resolved_agent_name(),
                chunk,
            ),
        ));
        index.set_last_message(new_index);
        index.set_last_thought(new_index);
    }

    fn process_agent_thought_chunk(
        &self,
        items: &mut Vec<RenderedItem>,
        index: &mut crate::index::UpdateStateIndex,
        chunk: ContentBlock,
    )
        requires
            content_text_defined(chunk),
        ensures
            (item_views(final(items)@), final(index)@) == thought_chunk_spec(
                item_views(old(items)@),
                old(index)@,
                chunk,
            ),
    {
        index.clear_user_message_state();
        let text = extract_text_from_content(&chunk);
        let ghost v0 = item_views(items@);
        match index.last_thought() {
            Some(last) => {
                if last < items.len() && items[last].can_accept_agent_thought_chunk() {
                    items[last].try_append_agent_thought_chunk(text);
                    assert(item_views(items@) =~= v0.update(
                        last as int,
                        thought_with(v0[last as int], content_text(chunk)),
                    ));
                    return ;
                }
            },
            None => {},
        }
        if index.last_message().is_some() {
            complete_last_item(items);
        }
        let new_index = items.len();
        let ghost before = items@;
        items.push(RenderedItem::AgentThought { text, open: false });
        assert(item_views(items@) =~= item_views(before).push(
            ItemView::AgentThought { text: content_text(chunk), open: false },
        ));
        index.set_last_thought(new_index);
        index.set_last_message(new_index);
    }

    fn process_tool_call(
        &self,
        items: &mut Vec<RenderedItem>,
        index: &mut crate::index::UpdateStateIndex,
        tool_call: ToolCall,
    )
        ensures
            (item_views(final(items)@), final(index)@) == tool_call_spec(
                item_views(old(items)@),
                old(index)@,
                tool_call@,
            ),
    {
        index.clear_user_message_state();
        let ghost v0 = item_views(items@);
        let ghost ix0 = index@;
        match index.find_tool_call(tool_call.tool_call_id.as_str()) {
            Some(pos) => {
                if pos < items.len() {
                    match &mut items[pos] {
                        RenderedItem::ToolCall { call, .. } => {
                            *call = tool_call;
                            assert(item_views(items@) =~= v0.update(
                                pos as int,
                                ItemView::ToolCall {
                                    call: tool_call@,
                                    open: v0[pos as int]->ToolCall_open,
                                },
                            ));
                            return ;
                        },
                        _ => {},
                    }
                }
            },
            None => {},
        }
        assert(tool_call_slot(v0, ix0, tool_call@.id) is None);
        complete_last_item(items);
        index.clear_streaming_state();
        let id = string_of(tool_call.tool_call_id.as_str());
        let new_index = items.len();
        let ghost call_view = tool_call@;
        let ghost before = items@;
        items.push(RenderedItem::ToolCall { call: tool_call, open: false });
        assert(item_views(items@) =~= item_views(before).push(
            ItemView::ToolCall { call: call_view, open: false },
        ));
        index.register_tool_call(id, new_index);
    }

    fn process_tool_call_update(
        &self,
        items: &mut Vec<RenderedItem>,
        index: &mut crate::index::UpdateStateIndex,
        tool_call_id: String,
        fields: ToolCallUpdateFields,
    )
        ensures
            (item_views(final(items)@), final(index)@) == tool_call_update_spec(
                item_views(old(items)@),
                old(index)@,
                tool_call_id@,
                fields,
            ),
    {
        let ghost v0 = item_views(items@);
        match index.find_tool_call(tool_call_id.as_str()) {
            Some(pos) => {
                if pos < items.len() {
                    match &mut items[pos] {
                        RenderedItem::ToolCall { call, .. } => {
                            call.update(fields);
                            assert(item_views(items@) =~= v0.update(
                                pos as int,
                                ItemView::ToolCall {
                                    call: apply_fields(v0[pos as int]->ToolCall_call, fields),
                                    open: v0[pos as int]->ToolCall_open,
                                },
                            ));
                            return ;
                        },
                        _ => {},
                    }
                }
            },
            None => {},
        }
        let ghost id_view = tool_call_id@;
        let key = string_of(tool_call_id.as_str());
        match ToolCall::try_from_update(tool_call_id, fields) {
            Some(c) => {
                let new_index = items.len();
                let ghost cv = c@;
                let ghost before = items@;
                items.push(RenderedItem::ToolCall { call: c, open: false });
                assert(item_views(items@) =~= item_views(before).push(
                    ItemView::ToolCall { call: cv, open: false },
                ));
                index.register_tool_call(key, new_index);
            },
            None => {},
        }
    }
}

} // verus!

verus! {

// ---------------------------------------------------------------------------
// The plain update list (no index)
// ---------------------------------------------------------------------------

/// Item `i` is the tool call `id`.
pub open spec fn is_call_with_id(i: ItemView, id: Seq<char>) -> bool {
    i is ToolCall && i->ToolCall_call.id == id
}

/// Position of the first tool call `id` in `items`.
pub open spec fn first_call_index(items: Seq<ItemView>, id: Seq<char>) -> Option<int>
    decreases items.len(),
{
    if items.len() == 0 {
        None
    } else {
        match first_call_index(items.drop_last(), id) {
            Some(k) => Some(k),
            None => if is_call_with_id(items.last(), id) {
                Some(items.len() - 1)
            } else {
                None
            },
        }
    }
}

/// A tool call item after an update in the plain list: the fields apply, and the item
/// opens when the call has finished (completed or failed) with some content.
pub open spec fn acp_updated(i: ItemView, f: ToolCallUpdateFields) -> ItemView {
    let c = apply_fields(i->ToolCall_call, f);
    ItemView::ToolCall {
        call: c,
        open: if (c.status == ToolCallStatus::Completed || c.status == ToolCallStatus::Failed)
            && c.content_count > 0 {
            true
        } else {
            i->ToolCall_open
        },
    }
}

/// The plain list after update number `n`.
pub open spec fn add_update_spec(items: Seq<ItemView>, u: SessionUpdate, n: nat) -> Seq<ItemView> {
    match u {
        SessionUpdate::UserMessageChunk(c) => complete_last(items).push(new_user_message(c)),
        SessionUpdate::AgentMessageChunk(c) => if items.len() > 0 && items.last() is AgentMessage {
            items.update(items.len() - 1, agent_message_with(items.last(), c))
        } else {
            complete_last(items).push(new_agent_message(n, "default-session"@, None, c))
        },
        SessionUpdate::AgentThoughtChunk(c) => if items.len() > 0 && items.last() is AgentThought {
            items.update(items.len() - 1, thought_with(items.last(), content_text(c)))
        } else {
            complete_last(items).push(ItemView::AgentThought { text: content_text(c), open: false })
        },
        SessionUpdate::ToolCall(c) => complete_last(items).push(
            ItemView::ToolCall { call: c@, open: false },
        ),
        SessionUpdate::ToolCallUpdate { tool_call_id, fields } => match first_call_index(
            items,
            tool_call_id@,
        ) {
            Some(k) => items.update(k, acp_updated(items[k], fields)),
            None => match call_from_update(tool_call_id@, fields) {
                Some(c) => items.push(ItemView::ToolCall { call: c, open: false }),
                None => items,
            },
        },
        SessionUpdate::Plan { entry_count } => complete_last(items).push(
            ItemView::Plan { entry_count: entry_count as nat },
        ),
        SessionUpdate::AvailableCommandsUpdate { command_count } => complete_last(items).push(
            ItemView::InfoUpdate { text: commands_text(command_count as nat) },
        ),
        SessionUpdate::CurrentModeUpdate { mode_id } => complete_last(items).push(
            ItemView::InfoUpdate { text: mode_text(mode_id@) },
        ),
        SessionUpdate::Other => items,
    }
}

proof fn lemma_first_call_index_step(items: Seq<ItemView>, id: Seq<char>, i: int)
    requires
        0 <= i < items.len(),
        first_call_index(items.take(i), id) is None,
    ensures
        first_call_index(items.take(i + 1), id) == (if is_call_with_id(items[i], id) {
            Some(i)
        } else {
            None::<int>
        }),
{
    assert(items.take(i + 1).drop_last() =~= items.take(i));
}

proof fn lemma_first_call_index_prefix(items: Seq<ItemView>, id: Seq<char>, j: int)
    requires
        0 <= j <= items.len(),
        first_call_index(items.take(j), id) is Some,
    ensures
        first_call_index(items, id) == first_call_index(items.take(j), id),
    decreases items.len() - j,
{
    if j == items.len() {
        assert(items.take(j) =~= items);
    } else {
        assert(items.take(j + 1).drop_last() =~= items.take(j));
        lemma_first_call_index_prefix(items, id, j + 1);
    }
}

proof fn lemma_first_call_index_bounds(items: Seq<ItemView>, id: Seq<char>)
    ensures
        first_call_index(items, id) matches Some(k) ==> 0 <= k < items.len() && is_call_with_id(
            items[k],
            id,
        ),
    decreases items.len(),
{
    if items.len() > 0 {
        lemma_first_call_index_bounds(items.drop_last(), id);
    }
}

impl RenderedItem {
    /// Applies an update to a tool call item of the plain list; it opens when the call
    /// finished with some content.
    pub fn apply_tool_call_update(&mut self, fields: ToolCallUpdateFields)
        requires
            old(self)@ is ToolCall,
        ensures
            final(self)@ == acp_updated(old(self)@, fields),
    {
        match self {
            RenderedItem::ToolCall { call, open } => {
                call.update(fields);
                match call.status {
                    ToolCallStatus::Completed | ToolCallStatus::Failed => {
                        if call.content_count > 0 {
                            *open = true;
                        }
                    },
                    _ => {},
                }
            },
            _ => {},
        }
    }
}

/// Position of the first tool call `id` in `items`.
pub fn find_tool_call_item(items: &Vec<RenderedItem>, id: &str) -> (r: Option<usize>)
    ensures
        match r {
            Some(k) => first_call_index(item_views(items@), id@) == Some(k as int),
            None => first_call_index(item_views(items@), id@) is None,
        },
{
    let ghost v = item_views(items@);
    let mut i: usize = 0;
    assert(v.take(0) =~= Seq::<ItemView>::empty());
    while i < items.len()
        invariant
            i <= items.len(),
            v == item_views(items@),
            first_call_index(v.take(i as int), id@) is None,
        decreases items.len() - i,
    {
        proof {
            lemma_first_call_index_step(v, id@, i as int);
        }
        match &items[i] {
            RenderedItem::ToolCall { call, .. } => {
                if crate::text::str_eq(call.tool_call_id.as_str(), id) {
                    proof {
                        lemma_first_call_index_prefix(v, id@, i + 1);
                    }
                    return Some(i);
                }
            },
            _ => {},
        }
        i = i + 1;
    }
    assert(v.take(i as int) =~= v);
    None
}

/// Adds update number `index` to a plain rendered list: agent message and thought chunks
/// merge into a trailing item of their kind, a user chunk completes a trailing agent
/// message, tool call updates apply to the first tool call with their id, and every
/// other update appends an item.
pub fn add_update_to_list(items: &mut Vec<RenderedItem>, update: SessionUpdate, index: usize)
    requires
        update_defined(update),
    ensures
        item_views(final(items)@) == add_update_spec(item_views(old(items)@), update, index as nat),
{
    let ghost v0 = item_views(items@);
    match update {
        SessionUpdate::UserMessageChunk(chunk) => {
            complete_last_item(items);
            let ghost before = items@;
            let item = create_user_message(chunk);
            items.push(item);
            assert(item_views(items@) =~= item_views(before).push(new_user_message(chunk)));
        },
        SessionUpdate::AgentMessageChunk(chunk) => {
            let n = items.len();
            if n > 0 && items[n - 1].can_accept_agent_message_chunk() {
                items[n - 1].try_append_agent_message_chunk(chunk);
                assert(item_views(items@) =~= v0.update(
                    n - 1,
                    agent_message_with(v0.last(), chunk),
                ));
            } else {
                complete_last_item(items);
                let data = create_agent_message_data(chunk, None, None);
                let id = agent_message_id(index);
                let ghost before = items@;
                items.push(RenderedItem::AgentMessage { id, data });
                assert(item_views(items@) =~= item_views(before).push(
                    new_agent_message(index as nat, "default-session"@, None, chunk),
                ));
            }
        },
        SessionUpdate::AgentThoughtChunk(chunk) => {
            let text = extract_text_from_content(&chunk);
            let n = items.len();
            if n > 0 && items[n - 1].can_accept_agent_thought_chunk() {
                items[n - 1].try_append_agent_thought_chunk(text);
                assert(item_views(items@) =~= v0.update(
                    n - 1,
                    thought_with(v0.last(), content_text(chunk)),
                ));
            } else {
                complete_last_item(items);
                let ghost before = items@;
                items.push(RenderedItem::AgentThought { text, open: false });
                assert(item_views(items@) =~= item_views(before).push(
                    ItemView::AgentThought { text: content_text(chunk), open: false },
                ));
            }
        },
        SessionUpdate::ToolCall(tool_call) => {
            complete_last_item(items);
            let ghost cv = tool_call@;
            let ghost before = items@;
            items.push(RenderedItem::ToolCall { call: tool_call, open: false });
            assert(item_views(items@) =~= item_views(before).push(
                ItemView::ToolCall { call: cv, open: false },
            ));
        },
        SessionUpdate::ToolCallUpdate { tool_call_id, fields } => {
            match find_tool_call_item(items, tool_call_id.as_str()) {
                Some(k) => {
                    proof {
                        lemma_first_call_index_bounds(v0, tool_call_id@);
                    }
                    items[k].apply_tool_call_update(fields);
                    assert(item_views(items@) =~= v0.update(
                        k as int,
                        acp_updated(v0[k as int], fields),
                    ));
                },
                None => {
                    match ToolCall::try_from_update(tool_call_id, fields) {
                        Some(c) => {
                            let ghost cv = c@;
                            items.push(RenderedItem::ToolCall { call: c, open: false });
                            assert(item_views(items@) =~= v0.push(
                                ItemView::ToolCall { call: cv, open: false },
                            ));
                        },
                        None => {},
                    }
                },
            }
        },
        SessionUpdate::Plan { entry_count } => {
            complete_last_item(items);
            let ghost before = items@;
            items.push(RenderedItem::Plan { entry_count });
            assert(item_views(items@) =~= item_views(before).push(
                ItemView::Plan { entry_count: entry_count as nat },
            ));
        },
        SessionUpdate::AvailableCommandsUpdate { command_count } => {
            complete_last_item(items);
            let text = commands_info(command_count);
            let ghost before = items@;
            items.push(RenderedItem::InfoUpdate { text });
            assert(item_views(items@) =~= item_views(before).push(
                ItemView::InfoUpdate { text: commands_text(command_count as nat) },
            ));
        },
        SessionUpdate::CurrentModeUpdate { mode_id } => {
            complete_last_item(items);
            let text = mode_info(mode_id.as_str());
            let ghost before = items@;
            items.push(RenderedItem::InfoUpdate { text });
            assert(item_views(items@) =~= item_views(before).push(
                ItemView::InfoUpdate { text: mode_text(mode_id@) },
            ));
        },
        SessionUpdate::Other => {},
    }
}

} // verus!

verus! {

// ---------------------------------------------------------------------------
// Laws
// ---------------------------------------------------------------------------

/// Every tool call the index knows sits, in the list, at the position the index gives.
pub open spec fn index_consistent(items: Seq<ItemView>, ix: crate::index::IndexView) -> bool {
    forall|id: Seq<char>|
        #[trigger] ix.tool_calls.contains_key(id) ==> ix.tool_calls[id] < items.len()
            && is_call_with_id(items[ix.tool_calls[id] as int], id)
}

proof fn lemma_complete_last_keeps_calls(items: Seq<ItemView>)
    ensures
        complete_last(items).len() == items.len(),
        forall|k: int|
            0 <= k < items.len() ==> (#[trigger] complete_last(items)[k] is ToolCall <==> items[k] is ToolCall)
                && (items[k] is ToolCall ==> complete_last(items)[k] == items[k]),
{
}

/// Processing an update keeps the index consistent with the list.
pub proof fn lemma_process_keeps_index_consistent(
    items: Seq<ItemView>,
    ix: crate::index::IndexView,
    p: ProcessorView,
    u: SessionUpdate,
)
    requires
        items.len() <= usize::MAX,
        index_consistent(items, ix),
    ensures
        index_consistent(process_spec(items, ix, p, u).0, process_spec(items, ix, p, u).1),
{
    lemma_complete_last_keeps_calls(items);
    let (items2, ix2) = process_spec(items, ix, p, u);
    assert forall|id: Seq<char>| #[trigger] ix2.tool_calls.contains_key(id) implies ix2.tool_calls[id]
        < items2.len() && is_call_with_id(items2[ix2.tool_calls[id] as int], id) by {
        if ix.tool_calls.contains_key(id) {
            let k = ix.tool_calls[id] as int;
            assert(is_call_with_id(items[k], id));
        }
        match u {
            SessionUpdate::ToolCall(c) => {
                let ix0 = cleared_user(ix);
                match tool_call_slot(items, ix0, c@.id) {
                    Some(k) => {
                        if id != c@.id {
                            assert(ix2.tool_calls[id] as int != k);
                        }
                    },
                    None => {
                        lemma_complete_last_keeps_calls(items);
                    },
                }
            },
            SessionUpdate::ToolCallUpdate { tool_call_id, fields } => {
                match tool_call_slot(items, ix, tool_call_id@) {
                    Some(k) => {
                        if id != tool_call_id@ {
                            assert(ix2.tool_calls[id] as int != k);
                        }
                    },
                    None => {},
                }
            },
            _ => {},
        }
    }
}

/// Processing an update never removes an item and adds at most one.
pub proof fn lemma_process_grows_by_at_most_one(
    items: Seq<ItemView>,
    ix: crate::index::IndexView,
    p: ProcessorView,
    u: SessionUpdate,
)
    ensures
        items.len() <= process_spec(items, ix, p, u).0.len() <= items.len() + 1,
{
}

/// A tool call that the index already knows updates its item in place: no item is added.
pub proof fn lemma_known_tool_call_adds_nothing(
    items: Seq<ItemView>,
    ix: crate::index::IndexView,
    p: ProcessorView,
    c: ToolCall,
)
    requires
        index_consistent(items, ix),
        ix.tool_calls.contains_key(c@.id),
    ensures
        process_spec(items, ix, p, SessionUpdate::ToolCall(c)).0.len() == items.len(),
        process_spec(items, ix, p, SessionUpdate::ToolCall(c)).0[ix.tool_calls[c@.id] as int]
            ->ToolCall_call == c@,
{
    let k = ix.tool_calls[c@.id] as int;
    assert(is_call_with_id(items[k], c@.id));
}

/// Two agent message chunks in a row end up in one message.
pub proof fn lemma_agent_chunks_merge(
    items: Seq<ItemView>,
    ix: crate::index::IndexView,
    p: ProcessorView,
    c1: ContentBlock,
    c2: ContentBlock,
)
    requires
        items.len() <= usize::MAX,
    ensures
        ({
            let (items1, ix1) = process_spec(items, ix, p, SessionUpdate::AgentMessageChunk(c1));
            let (items2, ix2) = process_spec(items1, ix1, p, SessionUpdate::AgentMessageChunk(c2));
            let k = ix1.last_message->0 as int;
            &&& ix1.last_message is Some
            &&& items2.len() == items1.len()
            &&& items1[k] is AgentMessage
            &&& items2[k] == named_message(agent_message_with(items1[k], c2), p.resolved_agent_name())
        }),
{
    let (items1, ix1) = process_spec(items, ix, p, SessionUpdate::AgentMessageChunk(c1));
    let ix0 = cleared_user(ix);
    let k = ix1.last_message->0 as int;
    if holds_agent_message(items, ix0.last_message) {
        assert(items1[k] is AgentMessage);
    } else {
        assert(items1[k] is AgentMessage);
    }
    assert(holds_agent_message(items1, cleared_user(ix1).last_message));
}

/// Two user message chunks in a row end up in one message.
pub proof fn lemma_user_chunks_merge(
    items: Seq<ItemView>,
    ix: crate::index::IndexView,
    p: ProcessorView,
    c1: ContentBlock,
    c2: ContentBlock,
)
    requires
        items.len() <= usize::MAX,
    ensures
        ({
            let (items1, ix1) = process_spec(items, ix, p, SessionUpdate::UserMessageChunk(c1));
            let (items2, ix2) = process_spec(items1, ix1, p, SessionUpdate::UserMessageChunk(c2));
            let k = ix1.last_user_message->0 as int;
            &&& ix1.last_user_message is Some
            &&& items2.len() == items1.len()
            &&& items2[k] == user_message_with(items1[k], c2)
        }),
{
    let (items1, ix1) = process_spec(items, ix, p, SessionUpdate::UserMessageChunk(c1));
    let k = ix1.last_user_message->0 as int;
    if holds_user_message(items, ix.last_user_message) {
        assert(items1[k] is UserMessage);
    } else {
        assert(items1[k] is UserMessage);
    }
    assert(holds_user_message(items1, ix1.last_user_message));
}

/// Two agent thought chunks in a row end up in one thought, their texts joined.
pub proof fn lemma_thought_chunks_merge(
    items: Seq<ItemView>,
    ix: crate::index::IndexView,
    p: ProcessorView,
    c1: ContentBlock,
    c2: ContentBlock,
)
    requires
        items.len() <= usize::MAX,
    ensures
        ({
            let (items1, ix1) = process_spec(items, ix, p, SessionUpdate::AgentThoughtChunk(c1));
            let (items2, ix2) = process_spec(items1, ix1, p, SessionUpdate::AgentThoughtChunk(c2));
            let k = ix1.last_thought->0 as int;
            &&& ix1.last_thought is Some
            &&& items2.len() == items1.len()
            &&& items2[k] == thought_with(items1[k], content_text(c2))
        }),
{
    let (items1, ix1) = process_spec(items, ix, p, SessionUpdate::AgentThoughtChunk(c1));
    let ix0 = cleared_user(ix);
    let k = ix1.last_thought->0 as int;
    if holds_thought(items, ix0.last_thought) {
        assert(items1[k] is AgentThought);
    } else {
        assert(items1[k] is AgentThought);
    }
    assert(holds_thought(items1, cleared_user(ix1).last_thought));
}

/// In the plain list, an agent message chunk after an agent message chunk joins the
/// same message.
pub proof fn lemma_plain_agent_chunks_merge(
    items: Seq<ItemView>,
    c1: ContentBlock,
    c2: ContentBlock,
    n1: nat,
    n2: nat,
)
    ensures
        ({
            let a = add_update_spec(items, SessionUpdate::AgentMessageChunk(c1), n1);
            let b = add_update_spec(a, SessionUpdate::AgentMessageChunk(c2), n2);
            &&& a.len() > 0
            &&& b.len() == a.len()
            &&& b.last() == agent_message_with(a.last(), c2)
        }),
{
}

/// In the plain list, an update never removes an item and adds at most one.
pub proof fn lemma_plain_grows_by_at_most_one(items: Seq<ItemView>, u: SessionUpdate, n: nat)
    ensures
        items.len() <= add_update_spec(items, u, n).len() <= items.len() + 1,
{
    match u {
        SessionUpdate::ToolCallUpdate { tool_call_id, .. } => {
            lemma_first_call_index_bounds(items, tool_call_id@);
        },
        _ => {},
    }
}

} // verus!

verus! {

/// The name of a session update's kind, for logs.
pub open spec fn update_kind_name(u: SessionUpdate) -> Seq<char> {
    match u {
        SessionUpdate::UserMessageChunk(_) => "UserMessageChunk"@,
        SessionUpdate::AgentMessageChunk(_) => "AgentMessageChunk"@,
        SessionUpdate::AgentThoughtChunk(_) => "AgentThoughtChunk"@,
        SessionUpdate::ToolCall(_) => "ToolCall"@,
        SessionUpdate::ToolCallUpdate { .. } => "ToolCallUpdate"@,
        SessionUpdate::Plan { .. } => "Plan"@,
        SessionUpdate::AvailableCommandsUpdate { .. } => "AvailableCommandsUpdate"@,
        SessionUpdate::CurrentModeUpdate { .. } => "CurrentModeUpdate"@,
        SessionUpdate::Other => "Unknown/Future SessionUpdate Type"@,
    }
}

/// The name of a session update's kind, for logs.
pub fn session_update_type_name(update: &SessionUpdate) -> (r: &'static str)
    ensures
        r@ == update_kind_name(*update),
{
    match update {
        SessionUpdate::UserMessageChunk(_) => "UserMessageChunk",
        SessionUpdate::AgentMessageChunk(_) => "AgentMessageChunk",
        SessionUpdate::AgentThoughtChunk(_) => "AgentThoughtChunk",
        SessionUpdate::ToolCall(_) => "ToolCall",
        SessionUpdate::ToolCallUpdate { .. } => "ToolCallUpdate",
        SessionUpdate::Plan { .. } => "Plan",
        SessionUpdate::AvailableCommandsUpdate { .. } => "AvailableCommandsUpdate",
        SessionUpdate::CurrentModeUpdate { .. } => "CurrentModeUpdate",
        SessionUpdate::Other => "Unknown/Future SessionUpdate Type",
    }
}

/// A tool call restored from a saved conversation: kind and status are stored as text
/// and matched without regard to case.
pub fn tool_call_from_stored(
    tool_call_id: String,
    title: String,
    kind: &Option<String>,
    status: &Option<String>,
    content_count: usize,
) -> (r: ToolCall)
    ensures
        r@ == (ToolCallView {
            id: tool_call_id@,
            title: title@,
            kind: match *kind {
                Some(k) => crate::status::tool_kind_named(crate::text::lowercase(k@)),
                None => ToolKind::Other,
            },
            status: match *status {
                Some(s) => crate::status::tool_call_status_named(crate::text::lowercase(s@)),
                None => ToolCallStatus::Pending,
            },
            content_count: content_count as nat,
        }),
{
    ToolCall {
        tool_call_id,
        title,
        kind: crate::status::parse_tool_kind(kind),
        status: crate::status::parse_tool_call_status(status),
        content_count,
    }
}

/// An agent message restored from a saved conversation.
pub fn agent_message_from_stored(
    session_id: String,
    meta: Option<(Option<String>, bool)>,
    chunks: Vec<ContentBlock>,
) -> (r: AgentMessageData)
    ensures
        r@ == (AgentMessageView {
            session_id: session_id@,
            chunks: chunks@,
            agent_name: match meta {
                Some((n, _)) => opt_view(n),
                None => None,
            },
            is_complete: match meta {
                Some((_, c)) => c,
                None => false,
            },
        }),
{
    match meta {
        Some((agent_name, is_complete)) => AgentMessageData { session_id, chunks, agent_name, is_complete },
        None => AgentMessageData { session_id, chunks, agent_name: None, is_complete: false },
    }
}

} // verus!

verus! {

// ---------------------------------------------------------------------------
// Rebuilding the index from the rendered list
// ---------------------------------------------------------------------------

/// Where each tool call of `items` sits: the last position holding a call with its id.
pub open spec fn call_positions(items: Seq<ItemView>) -> Map<Seq<char>, usize>
    decreases items.len(),
{
    if items.len() == 0 {
        Map::empty()
    } else {
        let before = call_positions(items.drop_last());
        match items.last() {
            ItemView::ToolCall { call, .. } => before.insert(call.id, (items.len() - 1) as usize),
            _ => before,
        }
    }
}

/// The last position of an agent message in `items`.
pub open spec fn last_agent_message(items: Seq<ItemView>) -> Option<usize>
    decreases items.len(),
{
    if items.len() == 0 {
        None
    } else if items.last() is AgentMessage {
        Some((items.len() - 1) as usize)
    } else {
        last_agent_message(items.drop_last())
    }
}

/// The last position of an agent thought in `items`.
pub open spec fn last_agent_thought(items: Seq<ItemView>) -> Option<usize>
    decreases items.len(),
{
    if items.len() == 0 {
        None
    } else if items.last() is AgentThought {
        Some((items.len() - 1) as usize)
    } else {
        last_agent_thought(items.drop_last())
    }
}

/// The index that describes `items`.
pub open spec fn index_of_items(items: Seq<ItemView>) -> crate::index::IndexView {
    crate::index::IndexView {
        tool_calls: call_positions(items),
        last_message: last_agent_message(items),
        last_thought: last_agent_thought(items),
        last_user_message: None,
    }
}

impl crate::index::UpdateStateIndex {
    /// Rebuilds the index from the rendered items, after changes to the whole list.
    pub fn rebuild(&mut self, items: &Vec<RenderedItem>)
        ensures
            final(self)@ == index_of_items(item_views(items@)),
    {
        let ghost v = item_views(items@);
        self.clear();
        let mut i: usize = 0;
        assert(v.take(0) =~= Seq::<ItemView>::empty());
        while i < items.len()
            invariant
                i <= items.len(),
                v == item_views(items@),
                self@ == index_of_items(v.take(i as int)),
            decreases items.len() - i,
        {
            proof {
                assert(v.take(i + 1).drop_last() =~= v.take(i as int));
                assert(v.take(i + 1).last() == items@[i as int]@);
            }
            match &items[i] {
                RenderedItem::ToolCall { call, .. } => {
                    self.register_tool_call(string_of(call.tool_call_id.as_str()), i);
                },
                RenderedItem::AgentMessage { .. } => {
                    self.set_last_message(i);
                },
                RenderedItem::AgentThought { .. } => {
                    self.set_last_thought(i);
                },
                _ => {},
            }
            i = i + 1;
        }
        assert(v.take(i as int) =~= v);
    }
}

} // verus!

verus! {

/// The index rebuilt from a list is consistent with it: every tool call it knows sits
/// where it says.
pub proof fn lemma_rebuilt_index_consistent(items: Seq<ItemView>)
    requires
        items.len() <= usize::MAX,
    ensures
        index_consistent(items, index_of_items(items)),
    decreases items.len(),
{
    if items.len() > 0 {
        let before = items.drop_last();
        lemma_rebuilt_index_consistent(before);
        let bm = call_positions(before);
        let m = call_positions(items);
        assert forall|id: Seq<char>| #[trigger] m.contains_key(id) implies m[id] < items.len()
            && is_call_with_id(items[m[id] as int], id) by {
            if items.last() is ToolCall && items.last()->ToolCall_call.id == id {
                assert(m[id] == items.len() - 1);
            } else {
                assert(bm.contains_key(id));
                assert(index_of_items(before).tool_calls.contains_key(id));
                assert(m[id] == bm[id]);
                assert(items[m[id] as int] == before[m[id] as int]);
            }
        }
    }
}

} // verus!

verus! {

// ---------------------------------------------------------------------------
// Batches of updates
// ---------------------------------------------------------------------------

/// Items and index after processing the updates `us` in order.
pub open spec fn process_all(
    items: Seq<ItemView>,
    ix: crate::index::IndexView,
    p: ProcessorView,
    us: Seq<SessionUpdate>,
) -> (Seq<ItemView>, crate::index::IndexView)
    decreases us.len(),
{
    if us.len() == 0 {
        (items, ix)
    } else {
        let (items1, ix1) = process_all(items, ix, p, us.drop_last());
        process_spec(items1, ix1, p, us.last())
    }
}

impl UpdateProcessor {
    /// Handles a batch of session updates (a burst from the agent, or a saved
    /// conversation being loaded), in order.
    pub fn process_updates(
        &self,
        items: &mut Vec<RenderedItem>,
        index: &mut crate::index::UpdateStateIndex,
        updates: Vec<SessionUpdate>,
    )
        requires
            forall|k: int| 0 <= k < updates@.len() ==> update_defined(#[trigger] updates@[k]),
        ensures
            (item_views(final(items)@), final(index)@) == process_all(
                item_views(old(items)@),
                old(index)@,
                self@,
                updates@,
            ),
    {
        let ghost all = updates@;
        let ghost v0 = item_views(items@);
        let ghost x0 = index@;
        for u in it: updates.into_iter()
            invariant
                it.seq() == all,
                forall|k: int| 0 <= k < all.len() ==> update_defined(#[trigger] all[k]),
                (item_views(items@), index@) == process_all(v0, x0, self@, all.take(it.index() as int)),
        {
            proof {
                let n = it.index() as int;
                assert(all.take(n + 1).drop_last() =~= all.take(n));
                assert(all.take(n + 1).last() == all[n]);
                assert(update_defined(all[n]));
            }
            self.process_update(items, index, u);
        }
        proof {
            assert(all.take(all.len() as int) =~= all);
        }
    }
}

/// The plain list after updates `us`, numbered from `n` on.
pub open spec fn add_all(items: Seq<ItemView>, us: Seq<SessionUpdate>, n: nat) -> Seq<ItemView>
    decreases us.len(),
{
    if us.len() == 0 {
        items
    } else {
        add_update_spec(add_all(items, us.drop_last(), n), us.last(), (n + us.len() - 1) as nat)
    }
}

/// A conversation shown as a plain list: its items and the number the next update gets.
pub struct PlainConversation {
    pub items: Vec<RenderedItem>,
    pub next_index: usize,
}

impl PlainConversation {
    /// An empty conversation.
    pub fn new() -> (r: Self)
        ensures
            r.items@.len() == 0,
            r.next_index == 0,
    {
        PlainConversation { items: Vec::new(), next_index: 0 }
    }

    /// Adds an update, numbered with the next number.
    pub fn receive_update(&mut self, update: SessionUpdate)
        requires
            old(self).next_index < usize::MAX,
            update_defined(update),
        ensures
            item_views(final(self).items@) == add_update_spec(
                item_views(old(self).items@),
                update,
                old(self).next_index as nat,
            ),
            final(self).next_index == old(self).next_index + 1,
    {
        let index = self.next_index;
        self.next_index = index + 1;
        add_update_to_list(&mut self.items, update, index);
    }

    /// Adds updates in order, each numbered with the next number.
    pub fn receive_updates(&mut self, updates: Vec<SessionUpdate>)
        requires
            old(self).next_index + updates@.len() <= usize::MAX,
            forall|k: int| 0 <= k < updates@.len() ==> update_defined(#[trigger] updates@[k]),
        ensures
            item_views(final(self).items@) == add_all(
                item_views(old(self).items@),
                updates@,
                old(self).next_index as nat,
            ),
            final(self).next_index == old(self).next_index + updates@.len(),
    {
        let ghost all = updates@;
        let ghost v0 = item_views(self.items@);
        let ghost n0 = self.next_index as nat;
        for u in it: updates.into_iter()
            invariant
                it.seq() == all,
                n0 + all.len() <= usize::MAX,
                forall|k: int| 0 <= k < all.len() ==> update_defined(#[trigger] all[k]),
                self.next_index == n0 + it.index(),
                item_views(self.items@) == add_all(v0, all.take(it.index() as int), n0),
        {
            proof {
                let k = it.index() as int;
                assert(all.take(k + 1).drop_last() =~= all.take(k));
                assert(all.take(k + 1).last() == all[k]);
                assert(update_defined(all[k]));
            }
            self.receive_update(u);
        }
        proof {
            assert(all.take(all.len() as int) =~= all);
        }
    }
}

} // verus!

verus! {

/// The resources that the contents of a saved user message link to or embed, in order.
pub open spec fn embedded_resources(cs: Seq<ContentBlock>) -> Seq<ResourceView>
    decreases cs.len(),
{
    if cs.len() == 0 {
        Seq::empty()
    } else {
        match crate::content::embedded_resource(cs.last()) {
            Some(r) => embedded_resources(cs.drop_last()).push(r),
            None => embedded_resources(cs.drop_last()),
        }
    }
}

/// The user message restored from a saved conversation: all its contents, with the
/// resources they link to or embed.
pub fn user_message_from_stored(contents: Vec<ContentBlock>) -> (r: RenderedItem)
    ensures
        r@ == (ItemView::UserMessage { contents: contents@, resources: embedded_resources(contents@) }),
{
    let mut resources: Vec<ResourceInfo> = Vec::new();
    let mut i: usize = 0;
    assert(contents@.take(0) =~= Seq::<ContentBlock>::empty());
    while i < contents.len()
        invariant
            i <= contents.len(),
            resource_views(resources@) == embedded_resources(contents@.take(i as int)),
        decreases contents.len() - i,
    {
        assert(contents@.take(i + 1).drop_last() =~= contents@.take(i as int));
        assert(contents@.take(i + 1).last() == contents@[i as int]);
        match ResourceInfo::from_content_block_with_embedded(&contents[i]) {
            Some(r) => {
                let ghost before = resources@;
                resources.push(r);
                assert(resource_views(resources@) =~= resource_views(before).push(r@));
            },
            None => {},
        }
        i = i + 1;
    }
    assert(contents@.take(i as int) =~= contents@);
    RenderedItem::UserMessage { contents, resources }
}

} // verus!

verus! {

/// Position `i` (when given) holds an item that the tracked agent message or thought may be.
pub open spec fn tracks_stream(items: Seq<ItemView>, i: Option<usize>) -> bool {
    i matches Some(k) ==> k < items.len() && (items[k as int] is AgentMessage || items[k as int] is AgentThought)
}

/// Position `i` (when given) holds a user message.
pub open spec fn tracks_user(items: Seq<ItemView>, i: Option<usize>) -> bool {
    i matches Some(k) ==> k < items.len() && items[k as int] is UserMessage
}

/// Everything the index records is true of the list: tool calls sit where it says, the
/// tracked message and thought positions hold an agent message or thought, and the
/// tracked user message position holds a user message.
pub open spec fn index_valid(items: Seq<ItemView>, ix: crate::index::IndexView) -> bool {
    &&& index_consistent(items, ix)
    &&& tracks_stream(items, ix.last_message)
    &&& tracks_stream(items, ix.last_thought)
    &&& tracks_user(items, ix.last_user_message)
}

/// Two items are of the same kind.
pub open spec fn same_kind(a: ItemView, b: ItemView) -> bool {
    &&& (a is UserMessage <==> b is UserMessage)
    &&& (a is AgentMessage <==> b is AgentMessage)
    &&& (a is AgentThought <==> b is AgentThought)
    &&& (a is Plan <==> b is Plan)
    &&& (a is ToolCall <==> b is ToolCall)
    &&& (a is InfoUpdate <==> b is InfoUpdate)
    &&& (a is PermissionRequest <==> b is PermissionRequest)
    &&& (a is DiffSummary <==> b is DiffSummary)
}

/// Processing an update keeps everything the index records true of the list, and every
/// item already in the list keeps its position and kind (only its contents or completion
/// may change); at most one item is added.
pub proof fn lemma_process_keeps_index_valid(
    items: Seq<ItemView>,
    ix: crate::index::IndexView,
    p: ProcessorView,
    u: SessionUpdate,
)
    requires
        items.len() <= usize::MAX,
        index_valid(items, ix),
    ensures
        index_valid(process_spec(items, ix, p, u).0, process_spec(items, ix, p, u).1),
        items.len() <= process_spec(items, ix, p, u).0.len() <= items.len() + 1,
        forall|k: int| 0 <= k < items.len() ==> same_kind(#[trigger] process_spec(items, ix, p, u).0[k], items[k]),
{
    lemma_process_keeps_index_consistent(items, ix, p, u);
    lemma_complete_last_keeps_calls(items);
    let (items2, ix2) = process_spec(items, ix, p, u);
    assert(forall|k: int| 0 <= k < items.len() ==> #[trigger] same_kind(complete_last(items)[k], items[k]));
    assert forall|k: int| 0 <= k < items.len() implies same_kind(#[trigger] items2[k], items[k]) by {
        match u {
            SessionUpdate::UserMessageChunk(c) => {},
            SessionUpdate::AgentMessageChunk(c) => {},
            SessionUpdate::AgentThoughtChunk(c) => {},
            SessionUpdate::ToolCall(c) => {},
            SessionUpdate::ToolCallUpdate { tool_call_id, fields } => {},
            _ => {},
        }
    }
}

} // verus!

verus! {

/// A tool call update sets every field it carries and keeps the others, and the id.
pub proof fn lemma_update_sets_carried_fields(c: ToolCallView, f: ToolCallUpdateFields)
    ensures
        apply_fields(c, f).id == c.id,
        f.title matches Some(t) ==> apply_fields(c, f).title == t@,
        f.title is None ==> apply_fields(c, f).title == c.title,
        f.kind matches Some(k) ==> apply_fields(c, f).kind == k,
        f.kind is None ==> apply_fields(c, f).kind == c.kind,
        f.status matches Some(s) ==> apply_fields(c, f).status == s,
        f.status is None ==> apply_fields(c, f).status == c.status,
        f.content_count matches Some(n) ==> apply_fields(c, f).content_count == n,
        f.content_count is None ==> apply_fields(c, f).content_count == c.content_count,
{
}

/// An update of a tool call that the index knows changes that item in place: it stays a
/// tool call with the same id, takes every field the update carries and keeps the others,
/// and no item is added.
pub proof fn lemma_tool_call_update_applies(
    items: Seq<ItemView>,
    ix: crate::index::IndexView,
    p: ProcessorView,
    tool_call_id: String,
    f: ToolCallUpdateFields,
)
    requires
        index_consistent(items, ix),
        ix.tool_calls.contains_key(tool_call_id@),
    ensures
        ({
            let u = SessionUpdate::ToolCallUpdate { tool_call_id, fields: f };
            let after = process_spec(items, ix, p, u).0;
            let k = ix.tool_calls[tool_call_id@] as int;
            let before = items[k]->ToolCall_call;
            let now = after[k]->ToolCall_call;
            &&& after.len() == items.len()
            &&& after[k] is ToolCall
            &&& now.id == tool_call_id@
            &&& now.title == (match f.title { Some(t) => t@, None => before.title })
            &&& now.kind == (match f.kind { Some(x) => x, None => before.kind })
            &&& now.status == (match f.status { Some(x) => x, None => before.status })
            &&& now.content_count == (match f.content_count { Some(n) => n as nat, None => before.content_count })
        }),
{
    let k = ix.tool_calls[tool_call_id@] as int;
    assert(is_call_with_id(items[k], tool_call_id@));
}

} // verus!
