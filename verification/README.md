# agentx

The logic behind the panels of a desktop studio for AI agents that speak the Agent
Client Protocol, written in Verus and proved against its contracts.

- `src/` — the verified library:
  - `timeline`, `index`: how session updates (message, thought and user chunks, tool
    calls, plans, mode and command changes) build the rendered conversation, with an
    index of positions for fast lookups;
  - `workspace`, `relative_time`: the task panel (workspaces and their tasks, selection,
    clicks, reloads, search, the newest-first timeline and its day groups);
  - `task_list`: the task list (sections by type, search, collapsing, message previews);
  - `content`, `status`, `xml`, `lint`, `selection`: what the panels show for content
    blocks, statuses, tool output, AutoCorrect findings and code selections;
  - `settings`, `update_check`, `session_view`, `subscription`, `dock`: the settings
    forms, the update check, the session manager's rows, subscribing to updates, and
    what a dock panel saves;
  - `text`, `seqs`: text and sequence helpers.
- `tests/` — tests of the library on concrete values.
- `app/` — what stays outside: conversions from the protocol's types, the clock, the
  platform queries and the JSON form of saved panel state.
