# Env Switcher

A multi-version environment manager for Node.js and Java on Windows:
project directories are mapped to versions, and a PowerShell hook switches
`PATH`, `NODE_HOME` and `JAVA_HOME` as the current directory changes.
A subdirectory inherits the mapping of its nearest configured ancestor.

## Layout

- `src/` — the library, verified with Verus.
  - `text.rs` — character-level helpers (prefix, search, trim, lines, replace).
  - `paths.rs` — path joining and the platform directories.
  - `order.rs` — the order of version names, and sorting them.
  - `config.rs` — the configuration: version tables and path mappings.
  - `matcher.rs` — which mapping a directory resolves to, and the cached matcher.
  - `injector.rs` — the hook script and the edits to the PowerShell profile.
  - `node.rs`, `java.rs` — install locations, download addresses, version output.
  - `app_state.rs` — the window state and how it reacts to the user.
- `app/` — the program: the iced window, file and network access, JSON.
- `tests/` — tests of the library.
