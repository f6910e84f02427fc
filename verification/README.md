# activity_archive

A desktop activity journal. Collectors observe window focus, process
launches, browser history, shell history and file changes; their raw events
are normalized into canonical events under privacy rules, grouped into
sessions, summarized per hour, day and project, and queued for a Notion
sync. Agent tools query the archive, and a small service layer runs the
daemon under the Windows Service Control Manager.

## Layout

- `src/` — the verified library (Verus). It holds the data model and every
  decision: event normalization and privacy filtering, sessionizing,
  summary texts and metrics, the sync queue's state changes, the
  collectors' per-tick logic (debouncing, process-list diffs, idle
  tracking, history offsets), the agent tools' arguments and answers,
  channel metrics, the service commands and the skill-management answers.
  Outside crates (`regex`, `url`, `uuid`, `chrono`) and the few `std`
  functions Verus has no specification for are reached through small
  trusted wrappers whose contracts are stated in their doc comments.
- `tests/` — tests of the library's public API.
- `app/` — ordinary Rust around the library: SQLite storage, the
  collectors' timers, file reads and watchers, the daemon's tasks, the
  tools' queries, the process-wide metrics registry, the Windows service
  glue and the `serde` forms of the records.
