# jcowork

The decision logic of the jcowork agent server, written in Verus: every
function in `src/` carries a contract that Verus proves, and the laws that
span several functions are stated as public proof functions.

## Layout

- `src/` — the verified library.
  - Agent turns and runs: `turn.rs` (one chat turn as a state machine, with
    each round's tool calls answered in order), `agent_loop.rs` (the
    channel-based loop, with context compression), `agent.rs` (prompt
    assembly, tool filtering, history compression), `session.rs` (a chat
    connection and running tasks with their event feeds).
  - Model output: `sse.rs` (event-stream framing and tool-call assembly),
    `llm.rs`, `router.rs` (providers and models).
  - Connectors: `connectors.rs`, `connector_requests.rs`, `sync.rs` (the
    registry a sync should hold), `tool_calls.rs`, `mcp.rs`, `api_call.rs`.
  - Scheduling: `cron_expr.rs`, `schedule.rs`, `scheduler.rs`,
    `cron_executor.rs`, `cron.rs`.
  - Web endpoints' logic: `auth.rs`, `reset.rs`, `admin.rs`, `upload.rs`,
    `workspace.rs`, `html.rs`, `feishu.rs`, `gateway.rs`, `memory.rs`,
    `report.rs`, `indexing.rs`, `logs.rs`, `log_files.rs`, `config.rs`.
  - Text helpers: `text.rs`, `order.rs`.
- `tests/` — tests run against the compiled library.
- `app/` — the unverified edge: environment and file access, JSON wire
  types with serde derives, token signing, the timer loop.

Calls into outside crates (serde_json, chrono, cron, argon2, regex, sha2,
hex, rand_core) go through small trusted functions whose contracts state
what those crates' sources and documentation promise.
