//! What the session manager lists: agents with their sessions, and the text of each row.
use vstd::prelude::*;
use crate::content::{is_utf8_boundary, utf8_len, utf8_prefix, utf8_truncate};
use crate::status::{status_name, status_text, SessionStatus};
use crate::text::{concat2, concat3, decimal, decimal_string};

verus! {

/// A session of an agent, with what the session manager reads of it.
pub struct AgentSessionInfo {
    pub session_id: String,
    pub status: SessionStatus,
}

/// Whether an agent has any session.
pub open spec fn has_sessions<T>() -> spec_fn((String, Vec<T>)) -> bool {
    |g: (String, Vec<T>)| g.1.len() > 0
}

/// The agents whose session lists are not empty, in their order.
pub fn agents_with_sessions<T>(groups: Vec<(String, Vec<T>)>) -> (r: Vec<(String, Vec<T>)>)
    ensures
        r@ == groups@.filter(has_sessions()),
{
    let ghost all = groups@;
    let mut r: Vec<(String, Vec<T>)> = Vec::new();
    for g in it: groups.into_iter()
        invariant
            it.seq() == all,
            r@ == all.take(it.index() as int).filter(has_sessions()),
    {
        proof {
            crate::seqs::lemma_filter_take_step(all, has_sessions(), it.index() as int);
        }
        if g.1.len() > 0 {
            r.push(g);
        }
    }
    proof {
        assert(all.take(all.len() as int) =~= all);
    }
    r
}

/// An MCP server as the configuration lists it.
pub struct McpServerEntry<T> {
    pub name: String,
    pub enabled: bool,
    pub config: T,
}

/// Whether an MCP server is switched on.
pub open spec fn is_enabled<T>() -> spec_fn(McpServerEntry<T>) -> bool {
    |e: McpServerEntry<T>| e.enabled
}

/// The configurations of the MCP servers that are switched on, in their order:
/// what a new session is started with.
pub fn enabled_configs<T>(entries: Vec<McpServerEntry<T>>) -> (r: Vec<T>)
    ensures
        r@ == entries@.filter(is_enabled()).map_values(|e: McpServerEntry<T>| e.config),
{
    let ghost all = entries@;
    let mut r: Vec<T> = Vec::new();
    for e in it: entries.into_iter()
        invariant
            it.seq() == all,
            r@ == all.take(it.index() as int).filter(is_enabled()).map_values(
                |e: McpServerEntry<T>| e.config,
            ),
    {
        proof {
            crate::seqs::lemma_filter_take_step(all, is_enabled(), it.index() as int);
        }
        if e.enabled {
            let ghost before = r@;
            r.push(e.config);
            proof {
                let f = all.take(it.index() as int).filter(is_enabled());
                assert(f.push(all[it.index() as int]).map_values(|e: McpServerEntry<T>| e.config)
                    =~= before.push(all[it.index() as int].config));
            }
        }
    }
    proof {
        assert(all.take(all.len() as int) =~= all);
    }
    r
}

// ---------------------------------------------------------------------------
// Row text
// ---------------------------------------------------------------------------

/// The heading of an agent's group: its name and how many sessions it has.
pub open spec fn agent_heading(name: Seq<char>, count: nat) -> Seq<char> {
    name + " ("@ + decimal(count) + " sessions)"@
}

/// The heading of an agent's group.
pub fn agent_header(name: &str, count: usize) -> (r: String)
    ensures
        r@ == agent_heading(name@, count as nat),
{
    let n = decimal_string(count);
    let head = concat3(name, " (", n.as_str());
    concat2(head.as_str(), " sessions)")
}

/// The first 12 bytes of a session id, or all of it when it is shorter.
pub fn short_session_id(session_id: &str) -> (r: String)
    requires
        utf8_len(session_id@) > 12 ==> is_utf8_boundary(session_id@, 12),
    ensures
        r@ == utf8_prefix(session_id@, 12),
{
    utf8_truncate(session_id, 12)
}

/// The title of a session's row.
pub fn session_title(session_id: &str) -> (r: String)
    requires
        utf8_len(session_id@) > 12 ==> is_utf8_boundary(session_id@, 12),
    ensures
        r@ == "Session "@ + utf8_prefix(session_id@, 12),
{
    let short = short_session_id(session_id);
    concat2("Session ", short.as_str())
}

/// The line under a session's title: its status and when it was last active.
pub fn session_subtitle(status: SessionStatus, last_active: &str) -> (r: String)
    ensures
        r@ == status_name(status) + " | Last active: "@ + last_active@,
{
    concat3(status_text(status), " | Last active: ", last_active)
}

/// The number that tells a row's buttons apart.
pub fn row_button_id(agent_index: usize, session_index: usize) -> (r: usize)
    requires
        agent_index * 1000 + session_index <= usize::MAX,
    ensures
        r == agent_index * 1000 + session_index,
{
    agent_index * 1000 + session_index
}

/// A session can be closed unless it already is.
pub fn can_close_session(status: SessionStatus) -> (r: bool)
    ensures
        r == (status != SessionStatus::Closed),
{
    status != SessionStatus::Closed
}

} // verus!
