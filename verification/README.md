# swarmy-store

The decisions of a durable store for agent sessions, verified with Verus, and the scheduler service
that runs on them.

A store operation is one database transaction: it reads a few rows, decides, and writes rows back.
`src/` holds the decisions. Each is a function from typed rows to the rows to write, to an answer or
to an error, and its contract says exactly which. `app/` holds what surrounds them: the transactions
on FoundationDB, object storage, the message bus, the encoding of records, and `main`.

## Layout of `src/`

- `ids`, `time`, `calendar`, `text`, `textmap`, `sort`, `error`: plain values.
- `keys`, `rows`, `paging`, `listing`: keys of rows, their order, ranges and pages.
- `payload`, `blobs`: stored payloads and their content addresses.
- `session`, `sessions`, `conversations`, `agents`, `replay`, `plans`: agents and their sessions.
- `events`, `log`, `leases`, `interrupt`, `turns`, `inference`: what a worker does with a session.
- `waits`, `routes`, `gateway`, `scheduler`, `config`: failed requests, routes and the scheduler.
- `tools`, `placed_tools`, `tool_routing`, `timers`: tool calls and timers.
- `nodes`, `placements`, `volumes`, `gc`: machines, computers, disks and chunk collection.
- `credentials`, `refresh`, `sealing`, `quota`: credentials, their encryption and provider quotas.
- `usage`, `hours`, `metering`, `metering_reads`, `metering_prune`: usage and its hourly index.
- `metrics`, `metrics_store`, `metrics_turns`, `metrics_rollup`, `metrics_laws`: timings of turns.

Public proof functions state what holds across operations: a stale lease stays stale, a request
completes once, a pruned hour is old, an index follows every transition.

Calls into other crates stand behind small functions marked `#[verifier::external_body]`; the
comment above each says what is taken on trust.

`tests/` runs the library on concrete values.
