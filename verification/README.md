# codexlimit_lib

The logic behind Codex Limit Island, a floating widget that shows Codex rate limits and
what running Codex sessions are doing. It is written in Verus: the functions in `src/`
are verified against their contracts, except the few calls into `std` and `serde_json`
listed below, whose contracts are trusted.

## Layout

- `src/activity/`: tracks sessions from Codex hook events. Each event changes only its
  own session and is the exact effect stated in `step.rs`. `registry.rs` applies events,
  drops old sessions, takes snapshots, and decides which events refresh the usage.
  `consistency.rs` holds the invariant that every operation keeps.
- `src/activity_laws.rs`: properties that hold across events, cleanups and snapshots.
- `src/hook.rs`: reads a hook body's JSON fields, checks them and keeps only their metadata.
- `src/http.rs`: parses the head of the HTTP request that carries a hook.
- `src/sender.rs`: the hook side. It checks the input, reads its event name and, step by
  step, decides how to deliver it and whether to start the listener; it also reads the
  listener's status line. This file holds the properties of that delivery procedure.
- `src/server.rs`: classifies the lines that the Codex app server writes, matches replies to
  the request that waits for them, and finds the shared rate-limit bucket in a limits reply.
- `src/usage.rs`: when the rate limits are read again (on notice, after a short settling
  time, and every five minutes).
- `src/app_paths.rs`: the application's state directory, `~/.codex-limit-island/`, and the
  marker file that disables automatic start.
- `src/path_facts.rs`: what holds of `std::path` results on every platform.
- `src/json.rs`: the calls into `serde_json`.
- `src/limits.rs`: which rate-limit window a reported window is.
- `src/text.rs`, `src/unique.rs`: helpers on character sequences and on keys that must
  be distinct.
- `app/`: the program around the library (window, tray, TCP listener, hook client,
  Codex app-server client, files and environment).

## Trusted calls

These functions are `#[verifier::external_body]`: Verus believes their contracts and does
not read their bodies, which only make the outside call and convert what it gives.

- `project_of` (`src/activity/registry.rs`): `Path::file_name` on a working directory.
- `join_path` (`src/app_paths.rs`): `Path::join`.
- `utf8_string` (`src/http.rs`): `str::from_utf8`.
- `json_string_member`, `json_has_member`, `json_parse_error`, `json_u64_member`,
  `json_has_pointer`, `json_str_pointer` (`src/json.rs`): `serde_json::from_slice` into a
  `serde_json::Value`, then one lookup. What these give is named by uninterpreted spec
  functions (`json_parses`, `json_str_field`, `json_has_field`, `json_error_text`,
  `json_u64_field`, `json_has_at`, `json_str_at`), and the contracts of the library speak
  of those names.
