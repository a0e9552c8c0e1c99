# server

The core of a team retrospective service, written in Verus. The library's own
functions in `src/` are verified by Verus against their `requires`/`ensures`
contracts. Calls into outside crates and the standard library go through small
trusted wrappers (`#[verifier::external_body]`), whose contracts are believed,
not proved; each says in its doc comment what it claims of the outside code.
A few functions read state shared behind a lock or the clock, and state only
what holds whatever they find there.

## Layout

- `src/` — the verified library.
  - `retro_dto`, `retrospect`, `calendar`, `storage`, `report` — retrospects:
    request validation, drafts and submissions, analysis checks and results,
    the storage view grouped by year, and the content of the exported report.
  - `auth`, `token`, `config` — sign-up and login rules, where tokens come
    from, and the server's settings.
  - `event`, `trigger`, `queue`, `processor`, `log_watcher`, `alert`,
    `colors` — the monitoring pipeline: events, trigger filtering and rate
    limiting, the queue's decisions, log deduplication, Discord alerts.
  - `discord`, `github`, `crypto` — webhook signatures, commands and payloads.
  - `safety`, `replace` — the limits automated fixes are held to.
  - `ai`, `og`, `health` — analysis prompts and replies, link previews, health
    reports.
  - `text`, `parse`, `json`, `string_set`, `stable`, `error` — shared helpers
    with their specifications.
- `tests/` — tests run against the compiled library.
- `app/` — the HTTP server and background tasks: file and network I/O around
  the library.
