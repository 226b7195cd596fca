//! Kinds and statuses of tool calls, plans and sessions, and how the panels show them.
use vstd::prelude::*;
use crate::content::IconName;
use crate::text::{lowercase, str_eq, to_lowercase};

verus! {

/// The kind of tool an agent calls.
#[derive(PartialEq, Eq, Structural, Clone, Copy, Debug)]
pub enum ToolKind {
    Read,
    Edit,
    Delete,
    Move,
    Search,
    Execute,
    Think,
    Fetch,
    SwitchMode,
    Other,
}

/// The progress of a tool call.
#[derive(PartialEq, Eq, Structural, Clone, Copy, Debug)]
pub enum ToolCallStatus {
    Pending,
    InProgress,
    Completed,
    Failed,
}

/// The status of an agent session.
#[derive(PartialEq, Eq, Structural, Clone, Copy, Debug)]
pub enum SessionStatus {
    Active,
    Idle,
    Pending,
    InProgress,
    Completed,
    Failed,
    Closed,
}

/// Priority of a plan entry.
#[derive(PartialEq, Eq, Structural, Clone, Copy, Debug)]
pub enum PlanEntryPriority {
    High,
    Medium,
    Low,
}

/// Status of a plan entry.
#[derive(PartialEq, Eq, Structural, Clone, Copy, Debug)]
pub enum PlanEntryStatus {
    Pending,
    InProgress,
    Completed,
}

/// A colour of the theme in use.
#[derive(PartialEq, Eq, Structural, Clone, Copy, Debug)]
pub enum ThemeColor {
    Success,
    Warning,
    Muted,
    Info,
    MutedForeground,
}

/// A colour: one of the theme, or a fixed `0xRRGGBB` value.
#[derive(PartialEq, Eq, Structural, Clone, Copy, Debug)]
pub enum Color {
    Theme(ThemeColor),
    Rgb(u32),
}

/// Green, as the panels use it.
pub const GREEN: u32 = 0x22c55e;

/// Red, as the panels use it.
pub const RED: u32 = 0xef4444;

/// Grey, as the panels use it.
pub const GREY: u32 = 0x6b7280;

/// Blue, as the panels use it.
pub const BLUE: u32 = 0x3b82f6;

/// Icon for a tool kind.
pub fn tool_kind_icon(kind: ToolKind) -> (r: IconName)
    ensures
        r == (match kind {
            ToolKind::Read => IconName::File,
            ToolKind::Edit => IconName::Replace,
            ToolKind::Delete => IconName::Delete,
            ToolKind::Move => IconName::ArrowRight,
            ToolKind::Search => IconName::Search,
            ToolKind::Execute => IconName::SquareTerminal,
            ToolKind::Think => IconName::Bot,
            ToolKind::Fetch => IconName::Globe,
            ToolKind::SwitchMode => IconName::ArrowRight,
            ToolKind::Other => IconName::Ellipsis,
        }),
{
    match kind {
        ToolKind::Read => IconName::File,
        ToolKind::Edit => IconName::Replace,
        ToolKind::Delete => IconName::Delete,
        ToolKind::Move => IconName::ArrowRight,
        ToolKind::Search => IconName::Search,
        ToolKind::Execute => IconName::SquareTerminal,
        ToolKind::Think => IconName::Bot,
        ToolKind::Fetch => IconName::Globe,
        ToolKind::SwitchMode => IconName::ArrowRight,
        ToolKind::Other => IconName::Ellipsis,
    }
}

/// Icon for a tool call status.
pub fn tool_call_status_icon(status: ToolCallStatus) -> (r: IconName)
    ensures
        r == (match status {
            ToolCallStatus::Pending => IconName::Dash,
            ToolCallStatus::InProgress => IconName::LoaderCircle,
            ToolCallStatus::Completed => IconName::CircleCheck,
            ToolCallStatus::Failed => IconName::CircleX,
        }),
{
    match status {
        ToolCallStatus::Pending => IconName::Dash,
        ToolCallStatus::InProgress => IconName::LoaderCircle,
        ToolCallStatus::Completed => IconName::CircleCheck,
        ToolCallStatus::Failed => IconName::CircleX,
    }
}

/// Icon of a session status in the task panel.
pub fn session_status_icon(status: SessionStatus) -> (r: IconName)
    ensures
        r == (match status {
            SessionStatus::Active | SessionStatus::Idle | SessionStatus::Pending => IconName::Asterisk,
            SessionStatus::InProgress => IconName::Loader,
            SessionStatus::Completed => IconName::CircleCheck,
            SessionStatus::Failed | SessionStatus::Closed => IconName::CircleX,
        }),
{
    match status {
        SessionStatus::Active => IconName::Asterisk,
        SessionStatus::Idle => IconName::Asterisk,
        SessionStatus::Pending => IconName::Asterisk,
        SessionStatus::InProgress => IconName::Loader,
        SessionStatus::Completed => IconName::CircleCheck,
        SessionStatus::Failed => IconName::CircleX,
        SessionStatus::Closed => IconName::CircleX,
    }
}

/// Colour (`0xRRGGBB`) of a session status indicator in the task panel.
pub fn session_status_color(status: SessionStatus) -> (r: u32)
    ensures
        r == (match status {
            SessionStatus::Active | SessionStatus::Idle | SessionStatus::Completed => GREEN,
            SessionStatus::Pending => GREY,
            SessionStatus::InProgress => BLUE,
            SessionStatus::Failed | SessionStatus::Closed => RED,
        }),
{
    match status {
        SessionStatus::Active => GREEN,
        SessionStatus::Idle => GREEN,
        SessionStatus::Pending => GREY,
        SessionStatus::InProgress => BLUE,
        SessionStatus::Completed => GREEN,
        SessionStatus::Failed => RED,
        SessionStatus::Closed => RED,
    }
}

/// Translation key of a session status badge in the task panel.
pub open spec fn badge_label_key(status: SessionStatus) -> Seq<char> {
    match status {
        SessionStatus::Active => "task_panel.status.active"@,
        SessionStatus::Idle => "task_panel.status.idle"@,
        SessionStatus::Pending => "task_panel.status.pending"@,
        SessionStatus::InProgress => "task_panel.status.in_progress"@,
        SessionStatus::Completed => "task_panel.status.completed"@,
        SessionStatus::Failed => "task_panel.status.failed"@,
        SessionStatus::Closed => "task_panel.status.closed"@,
    }
}

/// Label key and colour of a session status badge in the task panel.
pub fn status_badge(status: SessionStatus) -> (r: (&'static str, Color))
    ensures
        r.0@ == badge_label_key(status),
        r.1 == (match status {
            SessionStatus::Active | SessionStatus::Idle | SessionStatus::Pending => Color::Theme(
                ThemeColor::MutedForeground,
            ),
            SessionStatus::InProgress | SessionStatus::Completed => Color::Rgb(GREEN),
            SessionStatus::Failed | SessionStatus::Closed => Color::Rgb(RED),
        }),
{
    match status {
        SessionStatus::Active => (
            "task_panel.status.active",
            Color::Theme(ThemeColor::MutedForeground),
        ),
        SessionStatus::Idle => ("task_panel.status.idle", Color::Theme(ThemeColor::MutedForeground)),
        SessionStatus::Pending => (
            "task_panel.status.pending",
            Color::Theme(ThemeColor::MutedForeground),
        ),
        SessionStatus::InProgress => ("task_panel.status.in_progress", Color::Rgb(GREEN)),
        SessionStatus::Completed => ("task_panel.status.completed", Color::Rgb(GREEN)),
        SessionStatus::Failed => ("task_panel.status.failed", Color::Rgb(RED)),
        SessionStatus::Closed => ("task_panel.status.closed", Color::Rgb(RED)),
    }
}

/// Theme colour of a session status in the session manager.
pub fn session_manager_status_color(status: SessionStatus) -> (r: ThemeColor)
    ensures
        r == (match status {
            SessionStatus::Active | SessionStatus::Completed => ThemeColor::Success,
            SessionStatus::Idle => ThemeColor::Warning,
            SessionStatus::Closed | SessionStatus::Failed => ThemeColor::Muted,
            SessionStatus::InProgress | SessionStatus::Pending => ThemeColor::Info,
        }),
{
    match status {
        SessionStatus::Active => ThemeColor::Success,
        SessionStatus::Completed => ThemeColor::Success,
        SessionStatus::Idle => ThemeColor::Warning,
        SessionStatus::Closed => ThemeColor::Muted,
        SessionStatus::Failed => ThemeColor::Muted,
        SessionStatus::InProgress => ThemeColor::Info,
        SessionStatus::Pending => ThemeColor::Info,
    }
}

/// Name of a session status as the session manager shows it.
pub open spec fn status_name(status: SessionStatus) -> Seq<char> {
    match status {
        SessionStatus::Active => "Active"@,
        SessionStatus::Idle => "Idle"@,
        SessionStatus::Closed => "Closed"@,
        SessionStatus::InProgress => "InProgress"@,
        SessionStatus::Completed => "Completed"@,
        SessionStatus::Failed => "Failed"@,
        SessionStatus::Pending => "Pending"@,
    }
}

/// Name of a session status as the session manager shows it.
pub fn status_text(status: SessionStatus) -> (r: &'static str)
    ensures
        r@ == status_name(status),
{
    match status {
        SessionStatus::Active => "Active",
        SessionStatus::Idle => "Idle",
        SessionStatus::Closed => "Closed",
        SessionStatus::InProgress => "InProgress",
        SessionStatus::Completed => "Completed",
        SessionStatus::Failed => "Failed",
        SessionStatus::Pending => "Pending",
    }
}

/// The chat input is disabled once the session is closed or failed; with no known
/// status it stays enabled.
pub fn is_input_disabled(status: Option<SessionStatus>) -> (r: bool)
    ensures
        r == (status == Some(SessionStatus::Closed) || status == Some(SessionStatus::Failed)),
{
    match status {
        Some(SessionStatus::Closed) => true,
        Some(SessionStatus::Failed) => true,
        _ => false,
    }
}

/// The loading skeleton shows while the session is in progress or pending.
pub fn should_show_loading(status: Option<SessionStatus>) -> (r: bool)
    ensures
        r == (status == Some(SessionStatus::InProgress) || status == Some(
            SessionStatus::Pending,
        )),
{
    match status {
        Some(SessionStatus::InProgress) => true,
        Some(SessionStatus::Pending) => true,
        _ => false,
    }
}

/// A status update to completed or idle marks the last message complete.
pub fn status_completes_message(status: SessionStatus) -> (r: bool)
    ensures
        r == (status == SessionStatus::Completed || status == SessionStatus::Idle),
{
    match status {
        SessionStatus::Completed => true,
        SessionStatus::Idle => true,
        _ => false,
    }
}

// ---------------------------------------------------------------------------
// Parsing kinds and statuses from stored text
// ---------------------------------------------------------------------------

/// The tool kind named by an already lowercased word (anything else is `Other`).
pub open spec fn tool_kind_named(l: Seq<char>) -> ToolKind {
    if l == "read"@ {
        ToolKind::Read
    } else if l == "edit"@ {
        ToolKind::Edit
    } else if l == "delete"@ {
        ToolKind::Delete
    } else if l == "move"@ {
        ToolKind::Move
    } else if l == "search"@ {
        ToolKind::Search
    } else if l == "execute"@ {
        ToolKind::Execute
    } else if l == "think"@ {
        ToolKind::Think
    } else if l == "fetch"@ {
        ToolKind::Fetch
    } else if l == "switch_mode"@ {
        ToolKind::SwitchMode
    } else {
        ToolKind::Other
    }
}

/// The tool kind named by a lowercase word.
pub fn tool_kind_from_lowercase(l: &str) -> (r: ToolKind)
    ensures
        r == tool_kind_named(l@),
{
    if str_eq(l, "read") {
        ToolKind::Read
    } else if str_eq(l, "edit") {
        ToolKind::Edit
    } else if str_eq(l, "delete") {
        ToolKind::Delete
    } else if str_eq(l, "move") {
        ToolKind::Move
    } else if str_eq(l, "search") {
        ToolKind::Search
    } else if str_eq(l, "execute") {
        ToolKind::Execute
    } else if str_eq(l, "think") {
        ToolKind::Think
    } else if str_eq(l, "fetch") {
        ToolKind::Fetch
    } else if str_eq(l, "switch_mode") {
        ToolKind::SwitchMode
    } else {
        ToolKind::Other
    }
}

/// The tool kind stored as text, matched without regard to case; `Other` when absent.
pub fn parse_tool_kind(s: &Option<String>) -> (r: ToolKind)
    ensures
        r == (match *s {
            Some(t) => tool_kind_named(lowercase(t@)),
            None => ToolKind::Other,
        }),
{
    match s {
        Some(t) => {
            let l = to_lowercase(t.as_str());
            tool_kind_from_lowercase(l.as_str())
        },
        None => ToolKind::Other,
    }
}

/// The tool call status named by an already lowercased word (anything else is `Pending`).
pub open spec fn tool_call_status_named(l: Seq<char>) -> ToolCallStatus {
    if l == "pending"@ {
        ToolCallStatus::Pending
    } else if l == "in_progress"@ || l == "inprogress"@ {
        ToolCallStatus::InProgress
    } else if l == "completed"@ {
        ToolCallStatus::Completed
    } else if l == "failed"@ {
        ToolCallStatus::Failed
    } else {
        ToolCallStatus::Pending
    }
}

/// The tool call status named by a lowercase word.
pub fn tool_call_status_from_lowercase(l: &str) -> (r: ToolCallStatus)
    ensures
        r == tool_call_status_named(l@),
{
    if str_eq(l, "pending") {
        ToolCallStatus::Pending
    } else if str_eq(l, "in_progress") || str_eq(l, "inprogress") {
        ToolCallStatus::InProgress
    } else if str_eq(l, "completed") {
        ToolCallStatus::Completed
    } else if str_eq(l, "failed") {
        ToolCallStatus::Failed
    } else {
        ToolCallStatus::Pending
    }
}

/// The tool call status stored as text, matched without regard to case; `Pending` when absent.
pub fn parse_tool_call_status(s: &Option<String>) -> (r: ToolCallStatus)
    ensures
        r == (match *s {
            Some(t) => tool_call_status_named(lowercase(t@)),
            None => ToolCallStatus::Pending,
        }),
{
    match s {
        Some(t) => {
            let l = to_lowercase(t.as_str());
            tool_call_status_from_lowercase(l.as_str())
        },
        None => ToolCallStatus::Pending,
    }
}

/// The plan priority named by an already lowercased word (anything else is `Medium`).
pub open spec fn plan_priority_named(l: Seq<char>) -> PlanEntryPriority {
    if l == "high"@ {
        PlanEntryPriority::High
    } else if l == "low"@ {
        PlanEntryPriority::Low
    } else {
        PlanEntryPriority::Medium
    }
}

/// The plan priority named by a lowercase word.
pub fn plan_priority_from_lowercase(l: &str) -> (r: PlanEntryPriority)
    ensures
        r == plan_priority_named(l@),
{
    if str_eq(l, "high") {
        PlanEntryPriority::High
    } else if str_eq(l, "low") {
        PlanEntryPriority::Low
    } else {
        PlanEntryPriority::Medium
    }
}

/// The plan entry status named by an already lowercased word (anything else is `Pending`).
pub open spec fn plan_status_named(l: Seq<char>) -> PlanEntryStatus {
    if l == "in_progress"@ {
        PlanEntryStatus::InProgress
    } else if l == "completed"@ {
        PlanEntryStatus::Completed
    } else {
        PlanEntryStatus::Pending
    }
}

/// The plan entry status named by a lowercase word.
pub fn plan_status_from_lowercase(l: &str) -> (r: PlanEntryStatus)
    ensures
        r == plan_status_named(l@),
{
    if str_eq(l, "in_progress") {
        PlanEntryStatus::InProgress
    } else if str_eq(l, "completed") {
        PlanEntryStatus::Completed
    } else {
        PlanEntryStatus::Pending
    }
}

/// Priority and status of a stored plan entry, matched without regard to case.
pub fn map_plan_entry(priority: &str, status: &str) -> (r: (PlanEntryPriority, PlanEntryStatus))
    ensures
        r.0 == plan_priority_named(lowercase(priority@)),
        r.1 == plan_status_named(lowercase(status@)),
{
    let p = to_lowercase(priority);
    let s = to_lowercase(status);
    (plan_priority_from_lowercase(p.as_str()), plan_status_from_lowercase(s.as_str()))
}

} // verus!

verus! {

// ---------------------------------------------------------------------------
// Laws
// ---------------------------------------------------------------------------

/// The word a tool call status is stored under.
pub open spec fn tool_call_status_word(s: ToolCallStatus) -> Seq<char> {
    match s {
        ToolCallStatus::Pending => "pending"@,
        ToolCallStatus::InProgress => "in_progress"@,
        ToolCallStatus::Completed => "completed"@,
        ToolCallStatus::Failed => "failed"@,
    }
}

/// The word a tool kind is stored under.
pub open spec fn tool_kind_word(k: ToolKind) -> Seq<char> {
    match k {
        ToolKind::Read => "read"@,
        ToolKind::Edit => "edit"@,
        ToolKind::Delete => "delete"@,
        ToolKind::Move => "move"@,
        ToolKind::Search => "search"@,
        ToolKind::Execute => "execute"@,
        ToolKind::Think => "think"@,
        ToolKind::Fetch => "fetch"@,
        ToolKind::SwitchMode => "switch_mode"@,
        ToolKind::Other => "other"@,
    }
}

/// A status read back from the word it is stored under is that status.
pub proof fn lemma_tool_call_status_word_round_trip(s: ToolCallStatus)
    ensures
        tool_call_status_named(tool_call_status_word(s)) == s,
        tool_call_status_named("inprogress"@) == ToolCallStatus::InProgress,
{
    reveal_strlit("pending");
    assert("pending"@.len() == 7);
    reveal_strlit("in_progress");
    assert("in_progress"@.len() == 11);
    reveal_strlit("inprogress");
    assert("inprogress"@.len() == 10);
    reveal_strlit("completed");
    assert("completed"@.len() == 9);
    reveal_strlit("failed");
    assert("failed"@.len() == 6);
}

/// A tool kind read back from the word it is stored under is that kind.
pub proof fn lemma_tool_kind_word_round_trip(k: ToolKind)
    ensures
        tool_kind_named(tool_kind_word(k)) == k,
{
    reveal_strlit("read");
    assert("read"@.len() == 4 && "read"@[0] == 'r');
    reveal_strlit("edit");
    assert("edit"@.len() == 4 && "edit"@[0] == 'e');
    reveal_strlit("delete");
    assert("delete"@.len() == 6 && "delete"@[0] == 'd');
    reveal_strlit("move");
    assert("move"@.len() == 4 && "move"@[0] == 'm');
    reveal_strlit("search");
    assert("search"@.len() == 6 && "search"@[0] == 's');
    reveal_strlit("execute");
    assert("execute"@.len() == 7 && "execute"@[0] == 'e');
    reveal_strlit("think");
    assert("think"@.len() == 5 && "think"@[0] == 't');
    reveal_strlit("fetch");
    assert("fetch"@.len() == 5 && "fetch"@[0] == 'f');
    reveal_strlit("switch_mode");
    assert("switch_mode"@.len() == 11 && "switch_mode"@[0] == 's');
    reveal_strlit("other");
    assert("other"@.len() == 5 && "other"@[0] == 'o');
}

/// Plan priorities and statuses read back from their stored words.
pub proof fn lemma_plan_words_round_trip()
    ensures
        plan_priority_named("high"@) == PlanEntryPriority::High,
        plan_priority_named("medium"@) == PlanEntryPriority::Medium,
        plan_priority_named("low"@) == PlanEntryPriority::Low,
        plan_status_named("pending"@) == PlanEntryStatus::Pending,
        plan_status_named("in_progress"@) == PlanEntryStatus::InProgress,
        plan_status_named("completed"@) == PlanEntryStatus::Completed,
{
    reveal_strlit("high");
    assert("high"@.len() == 4);
    reveal_strlit("medium");
    assert("medium"@.len() == 6);
    reveal_strlit("low");
    assert("low"@.len() == 3);
    reveal_strlit("pending");
    assert("pending"@.len() == 7);
    reveal_strlit("in_progress");
    assert("in_progress"@.len() == 11);
    reveal_strlit("completed");
    assert("completed"@.len() == 9);
}

} // verus!
