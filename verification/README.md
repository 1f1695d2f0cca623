# syncthing_cli

A command-line client for the Syncthing REST API, written as a Verus
library with a thin program around it.

- `src/` is the verified library: the client's configuration and the API
  key in Syncthing's `config.xml` (`config`), host normalization and the
  local/remote decision (`hosts`), the client and the request endpoints
  (`api`), device selection (`devices`), folder configuration and sharing
  (`folders`), ages of timestamps (`times`), the printed lines (`reports`),
  error messages (`errors`) and string helpers (`text`). Calls into
  `reqwest`, `chrono` and `str::to_lowercase` stand behind small trusted
  wrappers whose contracts are stated in their doc comments.
- `app/` is the `syncthing` command: argument parsing with `clap`, HTTP
  with `reqwest` and `tokio`, JSON with `serde_json`, files, and the
  floating-point formatting of sizes and percentages.
- `tests/` runs the library on concrete values.
