# workspace_db

Remembers workspaces and the worktree roots that were open in them, in a SQLite
database, and finds a workspace again by its roots.

- `src/model.rs`: the tables as mathematics, and what an update makes of them
- `src/sql.rs`: the SQL texts and what each means for the tables
- `src/sqlite.rs`, `src/path.rs`: the calls into `rusqlite` and into `std::path`,
  with what is taken as known of them
- `src/lookup.rs`, `src/store.rs`, `src/recent.rs`: the operations on a connection
- `src/db.rs`, `src/workspace.rs`: the database and the values it hands out
- `src/laws.rs`, `src/history.rs`: what holds of the database as a whole, and over
  a history of calls
- `app/`: a handle that threads can share

Everything under `src/` is checked by Verus, except that the functions in
`sqlite.rs` and the two in `path.rs` that convert a path are believed to do what
they state.
