# cloudflared_gui

The verified core of a desktop front end for Cloudflare's `cloudflared`
tunnel tool. The library decides everything the application does; the
application (`app/`, a Tauri program) only starts processes, reads files,
downloads and draws windows.

## Layout

- `src/text.rs` — whitespace, trimming, lines, words, substring search and
  decimal numbers, each specified over character sequences with the meaning
  of the corresponding `str` method.
- `src/pattern.rs` — regular expressions through the `regex` crate (UUIDs and
  ANSI colour escapes).
- `src/json_field.rs` — reading one `"Key":"Value"` field from JSON text.
- `src/tunnel.rs` — `tunnel list` parsing, name and port validation, the
  command lines and outcomes of creating, deleting and starting tunnels.
- `src/credentials.rs` — finding the UUID of a new tunnel from the
  credentials directory or the command's output.
- `src/route.rs` — the create-then-bind-DNS flow as a state machine, which
  deletes the new tunnel again when the binding fails.
- `src/process.rs` — the slots holding the managed tunnel processes.
- `src/commands.rs` — locating the program, start-up failure messages,
  version and update reports, process polling.
- `src/logs.rs` — console log entries, line classification, the login-link
  watcher and maintenance messages.
- `src/download.rs`, `src/window.rs` — download helpers; tray and window
  decisions.
- `tests/` — tests of the library on concrete values.
- `app/` — the Tauri application.
