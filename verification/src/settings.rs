//! The settings forms: what the dialogs accept, and the system information the update
//! page shows.
use vstd::prelude::*;
use crate::text::{
    first_line, has_prefix, lines, lines_of, remove_all, remove_all_exec, split_once_at, split_once_seq,
    split_whitespace, starts_with, str_eq, string_of, string_views, strip_all_both, strip_all_prefix,
    trim, trim_end_matches, trim_seq, trim_start_matches, words,
};

verus! {

// ---------------------------------------------------------------------------
// Agent form
// ---------------------------------------------------------------------------

/// An agent as the agent dialog describes it.
pub struct AgentForm {
    pub name: String,
    pub command: String,
    pub args: Vec<String>,
    /// `KEY=VALUE` pairs in the order of their lines (a later key overrides an earlier one).
    pub env: Vec<(String, String)>,
}

/// Why the agent dialog refuses its input.
#[derive(Debug)]
pub enum AgentFormError {
    EmptyName,
    EmptyCommand,
    /// A non-empty environment line without `=` (trimmed).
    InvalidEnvLine(String),
}

/// The views of environment pairs.
pub open spec fn pair_views(v: Seq<(String, String)>) -> Seq<(Seq<char>, Seq<char>)> {
    v.map_values(|p: (String, String)| (p.0@, p.1@))
}

/// The environment pairs of the given lines, or the first trimmed line that is neither
/// blank nor `KEY=VALUE`.
pub open spec fn env_of_lines(ls: Seq<Seq<char>>) -> Result<Seq<(Seq<char>, Seq<char>)>, Seq<char>>
    decreases ls.len(),
{
    if ls.len() == 0 {
        Ok(Seq::empty())
    } else {
        match env_of_lines(ls.drop_last()) {
            Err(e) => Err(e),
            Ok(prev) => {
                let t = trim_seq(ls.last());
                if t.len() == 0 {
                    Ok(prev)
                } else {
                    match split_once_seq(t, '=') {
                        Some((k, v)) => Ok(prev.push((trim_seq(k), trim_seq(v)))),
                        None => Err(t),
                    }
                }
            },
        }
    }
}

proof fn lemma_env_error_persists(ls: Seq<Seq<char>>, j: int)
    requires
        0 <= j <= ls.len(),
        env_of_lines(ls.take(j)) is Err,
    ensures
        env_of_lines(ls) == env_of_lines(ls.take(j)),
    decreases ls.len() - j,
{
    if j == ls.len() {
        assert(ls.take(j) =~= ls);
    } else {
        assert(ls.take(j + 1).drop_last() =~= ls.take(j));
        lemma_env_error_persists(ls, j + 1);
    }
}

/// The environment pairs of a `KEY=VALUE`-per-line text.
pub open spec fn env_of(text: Seq<char>) -> Result<Seq<(Seq<char>, Seq<char>)>, Seq<char>> {
    env_of_lines(lines_of(text))
}

/// Parses `KEY=VALUE` lines (blank lines are skipped; keys and values are trimmed).
pub fn parse_env(text: &str) -> (r: Result<Vec<(String, String)>, String>)
    ensures
        match r {
            Ok(v) => env_of(text@) == Ok::<Seq<(Seq<char>, Seq<char>)>, Seq<char>>(pair_views(v@)),
            Err(e) => env_of(text@) == Err::<Seq<(Seq<char>, Seq<char>)>, Seq<char>>(e@),
        },
{
    let ls = lines(text);
    let ghost lv = string_views(ls@);
    let mut env: Vec<(String, String)> = Vec::new();
    let mut i: usize = 0;
    assert(lv.take(0) =~= Seq::<Seq<char>>::empty());
    assert(pair_views(env@) =~= Seq::<(Seq<char>, Seq<char>)>::empty());
    while i < ls.len()
        invariant
            i <= ls.len(),
            lv == string_views(ls@),
            lv == lines_of(text@),
            env_of_lines(lv.take(i as int)) == Ok::<Seq<(Seq<char>, Seq<char>)>, Seq<char>>(pair_views(env@)),
        decreases ls.len() - i,
    {
        assert(lv.take(i + 1).drop_last() =~= lv.take(i as int));
        assert(lv.take(i + 1).last() == ls@[i as int]@);
        let t = trim(ls[i].as_str());
        if !t.as_str().is_empty() {
            match split_once_at(t.as_str(), '=') {
                Some((k, v)) => {
                    let kt = trim(k.as_str());
                    let vt = trim(v.as_str());
                    let ghost before = env@;
                    env.push((kt, vt));
                    assert(pair_views(env@) =~= pair_views(before).push((kt@, vt@)));
                },
                None => {
                    proof {
                        lemma_env_error_persists(lv, i + 1);
                    }
                    return Err(t);
                },
            }
        }
        i = i + 1;
    }
    assert(lv.take(i as int) =~= lv);
    Ok(env)
}

/// The agent the dialog describes, or why it refuses: the trimmed name and command must
/// not be empty, arguments are split at whitespace, and environment lines must be
/// `KEY=VALUE`.
pub fn parse_agent_form(name: &str, command: &str, args: &str, env: &str) -> (r: Result<
    AgentForm,
    AgentFormError,
>)
    ensures
        trim_seq(name@).len() == 0 ==> r is Err && r->Err_0 is EmptyName,
        trim_seq(name@).len() > 0 && trim_seq(command@).len() == 0 ==> r is Err && r->Err_0 is EmptyCommand,
        trim_seq(name@).len() > 0 && trim_seq(command@).len() > 0 ==> match env_of(env@) {
            Err(line) => r is Err && (r->Err_0 matches AgentFormError::InvalidEnvLine(l) && l@ == line),
            Ok(pairs) => r is Ok && r->Ok_0.name@ == trim_seq(name@) && r->Ok_0.command@ == trim_seq(command@)
                && string_views(r->Ok_0.args@) == words(args@)
                && distinct_keys(pair_views(r->Ok_0.env@))
                && pairs_map(pair_views(r->Ok_0.env@)) == pairs_map(pairs),
        },
{
    let n = trim(name);
    let c = trim(command);
    if n.as_str().is_empty() {
        return Err(AgentFormError::EmptyName);
    }
    if c.as_str().is_empty() {
        return Err(AgentFormError::EmptyCommand);
    }
    let a = split_whitespace(args);
    match parse_env(env) {
        Ok(e) => Ok(AgentForm { name: n, command: c, args: a, env: env_map(e) }),
        Err(line) => Err(AgentFormError::InvalidEnvLine(line)),
    }
}

/// A map given as pairs with distinct keys becomes, after `k` takes the value `v` where it
/// already was, the map with `k` set to `v`.
proof fn lemma_pairs_map_update(s: Seq<(Seq<char>, Seq<char>)>, j: int, v: Seq<char>)
    requires
        distinct_keys(s),
        0 <= j < s.len(),
    ensures
        pairs_map(s.update(j, (s[j].0, v))) == pairs_map(s).insert(s[j].0, v),
        distinct_keys(s.update(j, (s[j].0, v))),
    decreases s.len(),
{
    let k = s[j].0;
    let t = s.update(j, (k, v));
    assert forall|a: int, b: int| 0 <= a < b < t.len() implies #[trigger] t[a].0 != #[trigger] t[b].0 by {
        assert(s[a].0 != s[b].0);
    }
    if j == s.len() - 1 {
        assert(t.drop_last() =~= s.drop_last());
        assert(pairs_map(t) =~= pairs_map(s).insert(k, v));
    } else {
        let d = s.drop_last();
        assert forall|a: int, b: int| 0 <= a < b < d.len() implies #[trigger] d[a].0 != #[trigger] d[b].0 by {
            assert(s[a].0 != s[b].0);
        }
        lemma_pairs_map_update(d, j, v);
        assert(t.drop_last() =~= d.update(j, (k, v)));
        assert(s.last().0 != k);
        assert(pairs_map(t) =~= pairs_map(s).insert(k, v));
    }
}

/// The pairs as a map: one pair per key, holding the value of its last pair (a later
/// pair with the same key replaces an earlier one), keys in order of first appearance.
pub fn env_map(pairs: Vec<(String, String)>) -> (r: Vec<(String, String)>)
    ensures
        distinct_keys(pair_views(r@)),
        pairs_map(pair_views(r@)) == pairs_map(pair_views(pairs@)),
{
    let ghost all = pair_views(pairs@);
    let mut r: Vec<(String, String)> = Vec::new();
    assert(pair_views(r@) =~= Seq::<(Seq<char>, Seq<char>)>::empty());
    for p in it: pairs.into_iter()
        invariant
            all == pair_views(it.seq()),
            distinct_keys(pair_views(r@)),
            pairs_map(pair_views(r@)) == pairs_map(all.take(it.index() as int)),
    {
        let ghost n = it.index() as int;
        let ghost pk = p.0@;
        let ghost pv = p.1@;
        proof {
            assert(all.take(n + 1).drop_last() =~= all.take(n));
            assert(all.take(n + 1).last() == (pk, pv));
            assert(pairs_map(all.take(n + 1)) == pairs_map(all.take(n)).insert(pk, pv));
        }
        let mut j: usize = 0;
        let mut found: bool = false;
        while j < r.len() && !found
            invariant
                j <= r.len(),
                found ==> j < r.len() && r@[j as int].0@ == p.0@,
                !found ==> forall|a: int| 0 <= a < j ==> r@[a].0@ != p.0@,
            decreases r.len() - j + (if found { 0int } else { 1int }),
        {
            if str_eq(r[j].0.as_str(), p.0.as_str()) {
                found = true;
            } else {
                j = j + 1;
            }
        }
        let ghost before = pair_views(r@);
        if found {
            proof {
                assert(before[j as int].0 == p.0@);
                lemma_pairs_map_update(before, j as int, p.1@);
            }
            let key = string_of(r[j].0.as_str());
            r.set(j, (key, p.1));
            assert(pair_views(r@) =~= before.update(j as int, (before[j as int].0, pv)));
            assert(pairs_map(pair_views(r@)) == pairs_map(all.take(n)).insert(pk, pv));
        } else {
            let (k, v) = p;
            r.push((k, v));
            assert(pair_views(r@) =~= before.push((k@, v@)));
            assert(before.push((k@, v@)).drop_last() =~= before);
            assert forall|a: int, b: int| 0 <= a < b < pair_views(r@).len() implies
                #[trigger] pair_views(r@)[a].0 != #[trigger] pair_views(r@)[b].0 by {
                if b == before.len() {
                    assert(r@[a].0@ != k@);
                }
            }
            assert(pairs_map(pair_views(r@)) == pairs_map(all.take(n)).insert(pk, pv));
        }
    }
    proof {
        assert(all.take(all.len() as int) =~= all);
    }
    r
}

/// What the agent dialog asks for: a new agent, or changes to the one it edits.
pub enum AgentAction {
    Add(AgentForm),
    Update(AgentForm),
}

/// The action the agent dialog dispatches for a checked form: an update when it was
/// opened on an existing agent, otherwise a new agent.
pub fn agent_dialog_action(editing: bool, form: AgentForm) -> (r: AgentAction)
    ensures
        editing ==> (r matches AgentAction::Update(f) && f == form),
        !editing ==> (r matches AgentAction::Add(f) && f == form),
{
    if editing {
        AgentAction::Update(form)
    } else {
        AgentAction::Add(form)
    }
}

// ---------------------------------------------------------------------------
// Model, command and MCP server forms
// ---------------------------------------------------------------------------

/// A model as the model dialog describes it (all fields trimmed).
pub struct ModelForm {
    pub name: String,
    pub provider: String,
    pub base_url: String,
    pub api_key: String,
    pub model_name: String,
}

/// The model the add dialog describes; `None` when the trimmed name, provider or URL is empty.
pub fn validate_model_form(name: &str, provider: &str, url: &str, key: &str, model: &str) -> (r:
    Option<ModelForm>)
    ensures
        r is Some == (trim_seq(name@).len() > 0 && trim_seq(provider@).len() > 0 && trim_seq(url@).len() > 0),
        r matches Some(f) ==> f.name@ == trim_seq(name@) && f.provider@ == trim_seq(provider@)
            && f.base_url@ == trim_seq(url@) && f.api_key@ == trim_seq(key@) && f.model_name@ == trim_seq(model@),
{
    let n = trim(name);
    let p = trim(provider);
    let u = trim(url);
    let k = trim(key);
    let m = trim(model);
    if n.as_str().is_empty() || p.as_str().is_empty() || u.as_str().is_empty() {
        return None;
    }
    Some(ModelForm { name: n, provider: p, base_url: u, api_key: k, model_name: m })
}

/// The model the edit dialog describes for model `name`; `None` when the trimmed provider
/// or URL is empty.
pub fn validate_model_edit(name: &str, provider: &str, url: &str, key: &str, model: &str) -> (r:
    Option<ModelForm>)
    ensures
        r is Some == (trim_seq(provider@).len() > 0 && trim_seq(url@).len() > 0),
        r matches Some(f) ==> f.name@ == name@ && f.provider@ == trim_seq(provider@)
            && f.base_url@ == trim_seq(url@) && f.api_key@ == trim_seq(key@) && f.model_name@ == trim_seq(model@),
{
    let p = trim(provider);
    let u = trim(url);
    let k = trim(key);
    let m = trim(model);
    if p.as_str().is_empty() || u.as_str().is_empty() {
        return None;
    }
    Some(ModelForm { name: string_of(name), provider: p, base_url: u, api_key: k, model_name: m })
}

/// A command as the command dialog describes it (all fields trimmed).
pub struct CommandForm {
    pub name: String,
    pub description: String,
    pub template: String,
}

/// The command the add dialog describes; `None` when a trimmed field is empty.
pub fn validate_command_form(name: &str, description: &str, template: &str) -> (r: Option<CommandForm>)
    ensures
        r is Some == (trim_seq(name@).len() > 0 && trim_seq(description@).len() > 0 && trim_seq(template@).len() > 0),
        r matches Some(f) ==> f.name@ == trim_seq(name@) && f.description@ == trim_seq(description@)
            && f.template@ == trim_seq(template@),
{
    let n = trim(name);
    let d = trim(description);
    let t = trim(template);
    if n.as_str().is_empty() || d.as_str().is_empty() || t.as_str().is_empty() {
        return None;
    }
    Some(CommandForm { name: n, description: d, template: t })
}

/// The command the edit dialog describes for command `name`; `None` when the trimmed
/// description or template is empty.
pub fn validate_command_edit(name: &str, description: &str, template: &str) -> (r: Option<CommandForm>)
    ensures
        r is Some == (trim_seq(description@).len() > 0 && trim_seq(template@).len() > 0),
        r matches Some(f) ==> f.name@ == name@ && f.description@ == trim_seq(description@)
            && f.template@ == trim_seq(template@),
{
    let d = trim(description);
    let t = trim(template);
    if d.as_str().is_empty() || t.as_str().is_empty() {
        return None;
    }
    Some(CommandForm { name: string_of(name), description: d, template: t })
}

// ---------------------------------------------------------------------------
// System information
// ---------------------------------------------------------------------------

/// The name shown for an operating system identifier (`std::env::consts::OS`).
pub open spec fn os_name(os: Seq<char>) -> Seq<char> {
    if os == "macos"@ {
        "macOS"@
    } else if os == "windows"@ {
        "Windows"@
    } else if os == "linux"@ {
        "Linux"@
    } else {
        os
    }
}

/// The name shown for an operating system identifier.
pub fn os_display_name(os: &str) -> (r: String)
    ensures
        r@ == os_name(os@),
{
    if str_eq(os, "macos") {
        string_of("macOS")
    } else if str_eq(os, "windows") {
        string_of("Windows")
    } else if str_eq(os, "linux") {
        string_of("Linux")
    } else {
        string_of(os)
    }
}

/// The name shown for an architecture identifier (`std::env::consts::ARCH`).
pub open spec fn arch_name(arch: Seq<char>) -> Seq<char> {
    if arch == "x86_64"@ {
        "x64"@
    } else if arch == "aarch64"@ {
        "ARM64"@
    } else {
        arch
    }
}

/// The name shown for an architecture identifier.
pub fn arch_display_name(arch: &str) -> (r: String)
    ensures
        r@ == arch_name(arch@),
{
    if str_eq(arch, "x86_64") {
        string_of("x64")
    } else if str_eq(arch, "aarch64") {
        string_of("ARM64")
    } else {
        string_of(arch)
    }
}

/// The version shown when it cannot be found.
pub open spec fn unknown_version() -> Seq<char> {
    "Unknown"@
}

/// The version a macOS `sw_vers -productVersion` output gives (`None` when the command
/// failed or printed no UTF-8).
pub fn macos_version(output: Option<String>) -> (r: String)
    ensures
        r@ == (match output {
            Some(s) => trim_seq(s@),
            None => unknown_version(),
        }),
{
    match output {
        Some(s) => trim(s.as_str()),
        None => string_of("Unknown"),
    }
}

/// Position of the first `c` in `s`.
pub open spec fn index_of(s: Seq<char>, c: char) -> Option<int> {
    crate::seqs::first_match(s, crate::text::is_char(c))
}

/// A Windows `ver` output can be cut between its brackets: there is no `]` before the first `[`.
pub open spec fn brackets_in_order(s: Seq<char>) -> bool {
    match (index_of(s, '['), index_of(s, ']')) {
        (Some(a), Some(b)) => a < b,
        _ => true,
    }
}

/// The version a Windows `ver` output gives: the text between its first `[` and first
/// `]` without `Version `, trimmed; the whole output trimmed when a bracket is missing.
pub open spec fn windows_version_of(s: Seq<char>) -> Seq<char> {
    match (index_of(s, '['), index_of(s, ']')) {
        (Some(a), Some(b)) => trim_seq(remove_all(s.subrange(a + 1, b), "Version "@)),
        _ => trim_seq(s),
    }
}

/// The version a Windows `ver` output gives (`None` when the command failed or printed
/// no UTF-8).
pub fn windows_version(output: Option<String>) -> (r: String)
    requires
        output matches Some(s) ==> brackets_in_order(s@),
    ensures
        r@ == (match output {
            Some(s) => windows_version_of(s@),
            None => unknown_version(),
        }),
{
    match output {
        Some(s) => {
            let v = crate::text::chars_of(s.as_str());
            let a = crate::text::find_char(&v, '[');
            let b = crate::text::find_char(&v, ']');
            proof {
                match a {
                    Some(k) => crate::seqs::lemma_first_match_is(v@, crate::text::is_char('['), k as int),
                    None => crate::seqs::lemma_first_match_none(v@, crate::text::is_char('[')),
                }
                match b {
                    Some(k) => crate::seqs::lemma_first_match_is(v@, crate::text::is_char(']'), k as int),
                    None => crate::seqs::lemma_first_match_none(v@, crate::text::is_char(']')),
                }
            }
            match (a, b) {
                (Some(x), Some(y)) => {
                    let inner = crate::text::string_from_range(&v, x + 1, y);
                    let cleaned = remove_all_exec(inner.as_str(), "Version ");
                    trim(cleaned.as_str())
                },
                _ => trim(s.as_str()),
            }
        },
        None => string_of("Unknown"),
    }
}

/// Lines that give the version id.
pub open spec fn is_version_line() -> spec_fn(Seq<char>) -> bool {
    |l: Seq<char>| has_prefix(l, "VERSION_ID="@)
}

/// The version an `/etc/os-release` file gives: its first `VERSION_ID=` line without
/// that prefix and without surrounding quotes.
pub open spec fn linux_version_of(content: Seq<char>) -> Seq<char> {
    match crate::seqs::first_match(lines_of(content), is_version_line()) {
        Some(k) => strip_all_both(strip_all_prefix(lines_of(content)[k], "VERSION_ID="@), "\""@),
        None => unknown_version(),
    }
}

/// The version an `/etc/os-release` file gives (`None` when it could not be read).
pub fn linux_version(content: Option<String>) -> (r: String)
    ensures
        r@ == (match content {
            Some(c) => linux_version_of(c@),
            None => unknown_version(),
        }),
{
    match &content {
        Some(c) => {
            let ls = lines(c.as_str());
            let ghost lv = string_views(ls@);
            let mut i: usize = 0;
            assert(lv.take(0) =~= Seq::<Seq<char>>::empty());
            while i < ls.len()
                invariant
                    i <= ls.len(),
                    lv == string_views(ls@),
                    lv == lines_of(c@),
                    content == Some(*c),
                    crate::seqs::first_match(lv.take(i as int), is_version_line()) is None,
                decreases ls.len() - i,
            {
                proof {
                    crate::seqs::lemma_first_match_step(lv, is_version_line(), i as int);
                }
                assert(lv[i as int] == ls@[i as int]@);
                if starts_with(ls[i].as_str(), "VERSION_ID=") {
                    proof {
                        crate::seqs::lemma_first_match_prefix(lv, is_version_line(), i + 1);
                    }
                    let rest = trim_start_matches(ls[i].as_str(), "VERSION_ID=");
                    let a = trim_start_matches(rest.as_str(), "\"");
                    let r = trim_end_matches(a.as_str(), "\"");
                    return r;
                }
                i = i + 1;
            }
            assert(lv.take(i as int) =~= lv);
            string_of("Unknown")
        },
        None => string_of("Unknown"),
    }
}

} // verus!

verus! {

// ---------------------------------------------------------------------------
// MCP server form
// ---------------------------------------------------------------------------

/// What `serde_json` reads from `text` as a JSON object whose values are all strings
/// (`None` when the text is not such an object).
pub uninterp spec fn json_string_map(text: Seq<char>) -> Option<Map<Seq<char>, Seq<char>>>;

/// The map that a list of distinct-keyed pairs describes.
pub open spec fn pairs_map(v: Seq<(Seq<char>, Seq<char>)>) -> Map<Seq<char>, Seq<char>>
    decreases v.len(),
{
    if v.len() == 0 {
        Map::empty()
    } else {
        pairs_map(v.drop_last()).insert(v.last().0, v.last().1)
    }
}

/// No key occurs twice among the pairs.
pub open spec fn distinct_keys(v: Seq<(Seq<char>, Seq<char>)>) -> bool {
    forall|i: int, j: int| 0 <= i < j < v.len() ==> #[trigger] v[i].0 != #[trigger] v[j].0
}

/// Parses `text` with `serde_json::from_str` into a `HashMap<String, String>` and hands out
/// its entries; the map is named by `json_string_map`. The entries come in the map's
/// iteration order, which is left unsaid.
#[verifier::external_body]
fn parse_json_string_map(text: &str) -> (r: Option<Vec<(String, String)>>)
    ensures
        match r {
            Some(v) => json_string_map(text@) == Some(pairs_map(pair_views(v@)))
                && distinct_keys(pair_views(v@)),
            None => json_string_map(text@) is None,
        },
{
    match serde_json::from_str::<std::collections::HashMap<String, String>>(text) {
        Ok(map) => Some(map.into_iter().collect()),
        Err(_) => None,
    }
}

/// An MCP server as the add dialog describes it: switched on, with its description and
/// the settings its JSON configuration gives.
pub struct McpServerForm {
    pub name: String,
    pub enabled: bool,
    pub description: String,
    pub config: Vec<(String, String)>,
}

/// The settings an MCP server's configuration text gives: none for empty text or text
/// that is not a JSON object of strings.
pub open spec fn mcp_config_of(text: Seq<char>) -> Map<Seq<char>, Seq<char>> {
    if text.len() == 0 {
        Map::empty()
    } else {
        match json_string_map(text) {
            Some(m) => m,
            None => Map::empty(),
        }
    }
}

/// Checks the add MCP server dialog: the name (trimmed) must not be empty; the
/// configuration (trimmed) is read as a JSON object of strings.
pub fn validate_mcp_form(name: &str, description: &str, config: &str) -> (r: Option<McpServerForm>)
    ensures
        r is Some == (trim_seq(name@).len() > 0),
        r matches Some(f) ==> f.name@ == trim_seq(name@) && f.enabled && f.description@ == trim_seq(
            description@,
        ) && pairs_map(pair_views(f.config@)) == mcp_config_of(trim_seq(config@)) && distinct_keys(
            pair_views(f.config@),
        ),
{
    let n = trim(name);
    if n.as_str().is_empty() {
        return None;
    }
    let d = trim(description);
    let c = trim(config);
    let pairs = if c.as_str().is_empty() {
        let v: Vec<(String, String)> = Vec::new();
        assert(pair_views(v@) =~= Seq::<(Seq<char>, Seq<char>)>::empty());
        v
    } else {
        match parse_json_string_map(c.as_str()) {
            Some(v) => v,
            None => {
                let v: Vec<(String, String)> = Vec::new();
                assert(pair_views(v@) =~= Seq::<(Seq<char>, Seq<char>)>::empty());
                v
            },
        }
    };
    proof {
        if c@.len() == 0 {
            assert(pair_views(pairs@).len() == 0);
        }
    }
    Some(McpServerForm { name: n, enabled: true, description: d, config: pairs })
}

} // verus!
