//! The workspace database.

use vstd::prelude::*;
use std::path::PathBuf;
use rusqlite::Connection;
use crate::lookup::{get_workspace_id, lookup_outcome};
use crate::model::{Database, Tables};
use crate::path::{path_texts, to_paths, to_texts};
use crate::recent::{list_recent, listed_ids, read_failed};
use crate::sql::{
    WORKSPACE_M_1, blank, created, enumerates, lookup, most_recent, new_workspace,
};
use crate::sqlite::{database, execute_batch, open_in_memory};
use crate::store::{insert_workspace, replace_roots, update_outcome};
use crate::workspace::{DbError, SerializedWorkspace, WorkspaceId, texts};

verus! {

/// A database that could be opened.
pub struct RealDb {
    connection: Connection,
}

/// A workspace database, or what stands in for one that could not be opened:
/// the null database holds nothing and takes nothing.
pub enum Db {
    Real(RealDb),
    Null,
}

impl View for Db {
    type V = Option<Database>;

    closed spec fn view(&self) -> Option<Database> {
        match *self {
            Db::Real(opened) => Some(database(opened.connection)),
            Db::Null => None,
        }
    }
}

/// What making a workspace does: it gets the next id and no roots. The default
/// workspace stands for an insertion that SQLite refused, and for the null
/// database.
pub open spec fn creation_outcome(
    before: Option<Database>,
    id: WorkspaceId,
    after: Option<Database>,
) -> bool {
    match (before, after) {
        (Some(b), Some(a)) => {
            let time = a.visible().workspaces[id.0].time;
            if id == WorkspaceId(0) {
                b.refused(new_workspace(), a)
            } else {
                &&& id.0 == b.visible().last_id + 1
                &&& a.same_rows(b.wrote(b.visible().with_new_workspace(time), b.last_rowid))
                &&& a.refusals == b.refusals
            }
        },
        (None, None) => id == WorkspaceId(0),
        _ => false,
    }
}

/// What finding or making the workspace for `roots` does. The workspace that has
/// these roots is found, and nothing changes. One is made if there is none, and
/// also if SQLite refused the lookup for these roots.
pub open spec fn find_outcome(
    before: Option<Database>,
    roots: Seq<Seq<char>>,
    id: WorkspaceId,
    after: Option<Database>,
) -> bool {
    match before {
        Some(b) => {
            ||| b.visible().registered(id.0, roots) && after == before
            ||| {
                &&& forall|other: i64| !(#[trigger] b.visible().registered(other, roots))
                &&& creation_outcome(before, id, after)
            }
            ||| exists|refused: Database| #[trigger]
                b.refused(lookup(roots), refused) && creation_outcome(Some(refused), id, after)
        },
        None => creation_outcome(before, id, after),
    }
}

/// Whether `list` shows up to `limit` workspaces of `tables`, the last written
/// first, each with all of its roots.
pub open spec fn shows_recent(
    tables: Tables,
    list: Seq<(WorkspaceId, Vec<PathBuf>)>,
    limit: int,
) -> bool {
    &&& most_recent(
        tables.workspaces,
        list.map_values(|entry: (WorkspaceId, Vec<PathBuf>)| entry.0.0),
        limit,
    )
    &&& forall|i: int|
        0 <= i < list.len() ==> enumerates(
            path_texts((#[trigger] list[i]).1@),
            tables.roots_of(list[i].0.0),
        )
}

/// What listing up to `limit` workspaces gives and leaves.
///
/// A success shows the most recent workspaces and changes no row. A limit that
/// SQLite cannot count is an error, and nothing changes. Any other error comes of
/// a transaction that was open before, or of a refusal by SQLite.
pub open spec fn list_outcome(
    before: Database,
    limit: usize,
    listed: Result<Vec<(WorkspaceId, Vec<PathBuf>)>, DbError>,
    after: Database,
) -> bool {
    match listed {
        Ok(list) => {
            &&& limit <= i64::MAX
            &&& before.pending is None
            &&& after.same_rows(before)
            &&& after.refusals == before.refusals
            &&& shows_recent(before.committed, list@, limit as int)
        },
        Err(DbError::LimitTooLarge) => limit > i64::MAX && after == before,
        Err(DbError::Sqlite(_)) => {
            limit <= i64::MAX && read_failed(before, limit as i64, after)
        },
    }
}

/// The workspace that the insertion of a row stands for: the one inserted, or
/// the default where that failed.
pub fn workspace_from_insert(inserted: Result<WorkspaceId, DbError>) -> (r: SerializedWorkspace)
    ensures
        r.workspace_id == match inserted {
            Ok(id) => id,
            Err(_) => WorkspaceId(0),
        },
{
    match inserted {
        Ok(workspace_id) => SerializedWorkspace { workspace_id },
        Err(_) => SerializedWorkspace::default(),
    }
}

/// Creates the two tables in an empty database.
fn with_tables(connection: Connection) -> (r: Result<Connection, rusqlite::Error>)
    requires
        database(connection).same_rows(blank()),
    ensures
        r matches Ok(connection) ==> database(connection).same_rows(created()),
{
    let mut connection = connection;
    match execute_batch(&mut connection, WORKSPACE_M_1) {
        Ok(()) => Ok(connection),
        Err(error) => Err(error),
    }
}

impl Db {
    /// What holds of a database between any two operations.
    pub open spec fn valid(self) -> bool {
        self@ matches Some(db) ==> db.valid()
    }

    /// Opens a database in memory, without workspaces. It is the null database
    /// if SQLite fails to open it or to create the tables.
    pub fn open_in_memory() -> (r: Db)
        ensures
            r.valid(),
            r@ matches Some(db) ==> db.same_rows(created()),
    {
        let opened = match open_in_memory() {
            Ok(connection) => with_tables(connection),
            Err(error) => Err(error),
        };
        assert forall|id: i64| Tables::empty().roots_of(id) =~= Set::empty() by {}
        Db::or_null(opened)
    }

    /// The database behind a connection that was opened, or the null database
    /// where that failed.
    pub fn or_null(opened: Result<Connection, rusqlite::Error>) -> (r: Db)
        requires
            opened matches Ok(connection) ==> database(connection).valid(),
        ensures
            r.valid(),
            r@ == match opened {
                Ok(connection) => Some(database(connection)),
                Err(_) => None,
            },
    {
        match opened {
            Ok(connection) => Db::Real(RealDb { connection }),
            Err(_) => Db::Null,
        }
    }

    /// Finds the workspace whose roots are exactly `worktree_roots`, or else
    /// makes a new one. The empty list names no workspace, so for that one is
    /// made.
    pub fn workspace_for_worktree_roots(&mut self, worktree_roots: &[PathBuf]) -> (r:
        SerializedWorkspace)
        requires
            old(self).valid(),
        ensures
            final(self).valid(),
            find_outcome(
                old(self)@,
                path_texts(worktree_roots@),
                r.workspace_id,
                final(self)@,
            ),
    {
        let found = self.workspace_id(worktree_roots);
        self.found_or_new(found)
    }

    /// The workspace that was found or, if none was, or if the search failed, a
    /// new one.
    pub fn found_or_new(&mut self, found: Result<Option<WorkspaceId>, DbError>) -> (r:
        SerializedWorkspace)
        requires
            old(self).valid(),
        ensures
            final(self).valid(),
            match found {
                Ok(Some(id)) => r.workspace_id == id && final(self)@ == old(self)@,
                _ => creation_outcome(old(self)@, r.workspace_id, final(self)@),
            },
    {
        if let Ok(Some(workspace_id)) = found {
            SerializedWorkspace { workspace_id }
        } else {
            self.make_new_workspace()
        }
    }

    /// Makes a workspace without roots. Where that fails, and on the null
    /// database, it is the default workspace.
    pub fn make_new_workspace(&mut self) -> (r: SerializedWorkspace)
        requires
            old(self).valid(),
        ensures
            final(self).valid(),
            creation_outcome(old(self)@, r.workspace_id, final(self)@),
    {
        match self {
            Db::Real(opened) => {
                let inserted = insert_workspace(&mut opened.connection);
                workspace_from_insert(inserted)
            },
            Db::Null => SerializedWorkspace::default(),
        }
    }

    /// Finds the workspace whose roots are exactly `worktree_roots`.
    pub fn workspace_id(&mut self, worktree_roots: &[PathBuf]) -> (r: Result<
        Option<WorkspaceId>,
        DbError,
    >)
        requires
            old(self).valid(),
        ensures
            final(self).valid(),
            match (old(self)@, final(self)@) {
                (Some(before), Some(after)) => lookup_outcome(
                    before,
                    path_texts(worktree_roots@),
                    r,
                    after,
                ),
                (None, None) => r == Ok::<Option<WorkspaceId>, DbError>(None),
                _ => false,
            },
    {
        match self {
            Db::Real(opened) => {
                let roots = to_texts(worktree_roots);
                get_workspace_id(roots.as_slice(), &mut opened.connection)
            },
            Db::Null => Ok(None),
        }
    }

    /// Gives a workspace exactly the roots `worktree_roots`, removes the other
    /// workspace that had them, and stamps the workspace with the current time.
    ///
    /// It is done as a whole or not at all. It fails if a root occurs twice, and
    /// if there are roots but no such workspace. The null database ignores it.
    pub fn update_worktree_roots(
        &mut self,
        workspace_id: &WorkspaceId,
        worktree_roots: &[PathBuf],
    ) -> (r: Result<(), DbError>)
        requires
            old(self).valid(),
        ensures
            final(self).valid(),
            match (old(self)@, final(self)@) {
                (Some(before), Some(after)) => update_outcome(
                    before,
                    workspace_id.0,
                    path_texts(worktree_roots@),
                    r is Ok,
                    after,
                ),
                (None, None) => r is Ok,
                _ => false,
            },
            r matches Err(error) ==> error is Sqlite,
    {
        match self {
            Db::Real(opened) => {
                let roots = to_texts(worktree_roots);
                replace_roots(&mut opened.connection, workspace_id.0, roots.as_slice())
            },
            Db::Null => Ok(()),
        }
    }

    /// Lists up to `limit` workspaces, the last written first, each with its
    /// roots. The null database has none.
    pub fn recent_workspaces(&mut self, limit: usize) -> (r: Result<
        Vec<(WorkspaceId, Vec<PathBuf>)>,
        DbError,
    >)
        requires
            old(self).valid(),
        ensures
            final(self).valid(),
            match (old(self)@, final(self)@) {
                (Some(before), Some(after)) => list_outcome(before, limit, r, after),
                (None, None) => r matches Ok(list) && list@.len() == 0,
                _ => false,
            },
    {
        match self {
            Db::Real(opened) => {
                if limit as u64 > i64::MAX as u64 {
                    return Err(DbError::LimitTooLarge);
                }
                match list_recent(&mut opened.connection, limit as i64) {
                    Ok(entries) => {
                        let list = with_paths(&entries);
                        assert(list@.map_values(|entry: (WorkspaceId, Vec<PathBuf>)| entry.0.0)
                            =~= listed_ids(entries@));
                        Ok(list)
                    },
                    Err(error) => Err(error),
                }
            },
            Db::Null => Ok(Vec::new()),
        }
    }
}

/// A list of workspaces with the texts of their roots as paths.
fn with_paths(entries: &Vec<(i64, Vec<String>)>) -> (r: Vec<(WorkspaceId, Vec<PathBuf>)>)
    ensures
        r@.len() == entries@.len(),
        forall|i: int| 0 <= i < r@.len() ==> (#[trigger] r@[i]).0.0 == entries@[i].0,
        forall|i: int|
            0 <= i < r@.len() ==> path_texts((#[trigger] r@[i]).1@) == texts(entries@[i].1@),
{
    let mut list: Vec<(WorkspaceId, Vec<PathBuf>)> = Vec::new();
    for i in 0..entries.len()
        invariant
            list@.len() == i,
            forall|k: int| 0 <= k < i ==> (#[trigger] list@[k]).0.0 == entries@[k].0,
            forall|k: int|
                0 <= k < i ==> path_texts((#[trigger] list@[k]).1@) == texts(entries@[k].1@),
    {
        let paths = to_paths(&entries[i].1);
        list.push((WorkspaceId(entries[i].0), paths));
    }
    list
}

} // verus!
