# antigravity_client

The Antigravity desktop client routes the Antigravity IDE, the Antigravity
desktop app and the `agy` CLI through a shared local proxy on
`127.0.0.1:8047`. This crate is its core, written in Verus and verified:

- `src/timefmt.rs` — RFC 3339 rendering of Unix timestamps (Gregorian calendar).
- `src/settings.rs` — the tools' `settings.json`: reading, setting the proxy
  entries while saving what they overwrite, restoring it on clearing, writing
  back; laws relating setting and clearing.
- `src/proxy.rs` — the proxy's lifecycle and the plan of a launch request.
- `src/launch.rs` — which processes start or stop a tool, terminal selection for
  the CLI, and where tools are looked for.
- `src/credentials.rs` — session rows and the system keyring entry.
- `src/client.rs` — platform label, server responses, the file picker, the saved
  token, self-update and the tray.
- `src/unix_path.rs` — parents and extensions of Unix paths, and the application
  bundle that holds a path on macOS.
- `src/text.rs`, `src/platform.rs` — text primitives and plain descriptions of
  paths and processes.
- `src/json.rs` — the calls into `serde_json`, with their trusted contracts.

`app/` is the host around it: files, SQLite, processes, HTTP and DNS.
