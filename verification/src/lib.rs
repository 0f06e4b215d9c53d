//! A database of the workspaces that were opened and of their worktree roots.

pub mod db;
pub mod history;
pub mod laws;
pub mod lookup;
pub mod model;
pub mod path;
pub mod promises;
pub mod recent;
pub mod sql;
pub mod sqlite;
pub mod store;
pub mod workspace;

pub use db::Db;
pub use workspace::{DbError, SerializedWorkspace, WorkspaceId};
