//! The values that the database hands out.

use vstd::prelude::*;

verus! {

/// The id of a workspace. The database counts from one, so the default, zero,
/// is the id of no workspace.
#[derive(Debug, PartialEq, Eq, Structural, Copy, Clone)]
pub struct WorkspaceId(pub i64);

impl Default for WorkspaceId {
    fn default() -> (r: WorkspaceId)
        ensures
            r == WorkspaceId(0),
    {
        WorkspaceId(0)
    }
}

/// A workspace as it was saved.
#[derive(Debug)]
pub struct SerializedWorkspace {
    pub workspace_id: WorkspaceId,
}

impl Default for SerializedWorkspace {
    fn default() -> (r: SerializedWorkspace)
        ensures
            r.workspace_id == WorkspaceId(0),
    {
        SerializedWorkspace { workspace_id: WorkspaceId::default() }
    }
}

/// Why an operation failed.
#[derive(Debug)]
pub enum DbError {
    /// SQLite refused a statement.
    Sqlite(rusqlite::Error),
    /// More rows were asked for than SQLite can count.
    LimitTooLarge,
}

/// The texts of a list of strings.
pub open spec fn texts(strings: Seq<String>) -> Seq<Seq<char>> {
    strings.map_values(|s: String| s@)
}

} // verus!
