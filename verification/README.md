# cowclaw_swarm

The decision-making core of the CowClaw swarm orchestrator, written in Verus: every
function under `src/` carries a contract that Verus proves.

What the library decides:

- `planner`: classifying an objective into an execution profile (P1..P9) and its
  dials, forced escalation by glob patterns, sizing and splitting plans under a line
  cap, the `PLAN.xml` format (writing and reading), and the text files and graph of
  the planning tree.
- `budget`: the line budgets of markdown and plan files.
- `gates`: verdicts of the gates that a plan passes before it runs, and how a chain
  of gates stops at the first failure.
- `worker`, `hivemind`: turn outcomes, stuck detection, and picking a peer to consult.
- `events`, `oracle`, `mcp_stdio`, `memory`, `promoter`: event kinds, the oracle's
  daily cap, MCP message framing and routing, memory drawers, and the promoter's rules.
- `text`, `utf8`, `json`, `paths`: verified string and byte helpers the rest builds on.

Laws that span several functions stand as public proof functions next to the code
they speak of (for instance `written_plan_reads_back`, `split_respects_cap`,
`chain_stops_at_first_fail`, `frame_header_roundtrip`, `phase_profile_reads_back`,
`window_is_the_last_run`).

Calls into outside crates (`quick-xml`, `globset`, `serde_json`, `chrono`) stand
behind small trusted wrappers whose doc comments say what their contracts claim.

`app/` is ordinary Rust around the library: the SQLite event log, the worker and
oracle processes, the planning tree on disk, the MCP server loop and the command
lines. It hands the library plain values and acts on what comes back.
