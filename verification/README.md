# nusa

The decision-making core of the Nusa PHP runtime, written in Verus and
proved against its contracts.

- `src/` — the verified library: the command-line grammar (`cli`), runtime
  configuration defaults and checks (`config`), request guards (`guards`),
  engine errors (`error`), tenant identifiers, registry and per-tenant
  filesystem roots (`types`, `tenant`, `vfs`), the token-bucket rate limiter
  (`rate_limiter`), hot-reload actions and debouncing (`dev`), offloaded task
  decisions and the task board (`task`), the read-only SQL allowlist and the
  async I/O bridge selection (`sql`, `async_io`), test-run summaries
  (`test_runner`), deploy state (`deploy`) and start-up decisions (`server`).
  `text` and `assoc` hold the shared string and association-list lemmas.
- `tests/` — tests of the library on concrete values.
- `app/` — the `nusa` binary: configuration loading and hot reload (figment,
  arc-swap, notify), the file watcher loop, task execution (tokio, reqwest),
  the SQLite bridge (rusqlite) and the deploy state file (toml), all driven by
  the library's decisions.
