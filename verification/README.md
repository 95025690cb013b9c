# codex-supervisor

The decision core of an asynchronous supervision bridge: it takes tasks for a
coding tool, leases sessions to them, gives each a checkout of its own, watches
their event streams, stops runs that go in circles, tries again what failed in
transit, and lets a judging command say whether a task has passed.

- `src/` is the library. Every function in it is verified with Verus, but for
  eleven small wrappers around calls into `chrono`, `serde_json`, `uuid` and the
  standard library. Their contracts, and that of `String::push`, are taken on
  trust. It touches
  no disk, no process and no network: each operation takes what the outside
  world answered last, and says what to do next.
- `app/` is the program around it: an MCP server on stdio that launches
  processes, writes records, calls `git`, probes endpoints and serves the
  provider middleware.
- `tests/` runs the library on concrete values.

| Module | What it decides |
|---|---|
| `service` | how a task begins, is watched, judged and settled; recovery after a restart |
| `acceptance` | circuit breaker, transient failures, endings, the judge's word |
| `executor` | command lines, what an event stream adds up to, how a run is stopped |
| `session`, `registry` | session leases, the life cycle of a task |
| `models` | which model a key stands for |
| `middleware` | sampling parameters, forwarding, audit lines, one listener per model |
| `observe` | one line per event |
| `mcp` | parameters and errors of the five tools |
| `paths`, `worktree` | where everything lives, the singleton lock, damaged records |
| `ranges` | number ranges as text |
| `ids`, `clock`, `text`, `events` | what the others are made of |
