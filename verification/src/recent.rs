//! Reading the most recent workspaces back.

use vstd::prelude::*;
use rusqlite::Connection;
use crate::model::{Database, Statement, Tables};
use crate::sql::{
    BEGIN, RECENT_WORKSPACES, WORKSPACE_ROOTS, begin, commit, enumerates, most_recent,
    statement_for,
};
use crate::sqlite::{database, execute_batch, query_integers, query_texts};
use crate::store::finish;
use crate::workspace::{DbError, texts};

verus! {

/// The ids of a list of workspaces with their roots.
pub open spec fn listed_ids(list: Seq<(i64, Vec<String>)>) -> Seq<i64> {
    list.map_values(|entry: (i64, Vec<String>)| entry.0)
}

/// Whether `list` shows up to `limit` workspaces of `tables`, the last written
/// first, each with all of its roots.
pub open spec fn lists_recent(
    tables: Tables,
    list: Seq<(i64, Vec<String>)>,
    limit: int,
) -> bool {
    &&& most_recent(tables.workspaces, listed_ids(list), limit)
    &&& forall|i: int|
        0 <= i < list.len() ==> enumerates(
            texts((#[trigger] list[i]).1@),
            tables.roots_of(list[i].0),
        )
}

/// Reads up to `limit` workspaces with their roots. Nothing changes, unless SQLite
/// refuses a query.
fn read_recent(connection: &mut Connection, limit: i64) -> (r: Result<
    Vec<(i64, Vec<String>)>,
    DbError,
>)
    requires
        database(*old(connection)).ready,
        0 <= limit,
    ensures
        match r {
            Ok(list) => {
                &&& database(*final(connection)) == database(*old(connection))
                &&& lists_recent(database(*old(connection)).visible(), list@, limit as int)
            },
            Err(error) => {
                &&& error is Sqlite
                &&& database(*old(connection)).after_failure(database(*final(connection)))
                &&& list_refused(
                    database(*old(connection)),
                    limit,
                    database(*final(connection)),
                )
            },
        },
{
    let ghost tables = database(*connection).visible();
    assert(part_of_list(tables, limit, statement_for(RECENT_WORKSPACES@, limit)));
    let ids = match query_integers(connection, RECENT_WORKSPACES, limit) {
        Ok(ids) => ids,
        Err(error) => return Err(DbError::Sqlite(error)),
    };
    let mut list: Vec<(i64, Vec<String>)> = Vec::new();
    for i in 0..ids.len()
        invariant
            database(*connection) == database(*old(connection)),
            database(*connection).ready,
            most_recent(tables.workspaces, ids@, limit as int),
            tables == database(*connection).visible(),
            listed_ids(list@) =~= ids@.take(i as int),
            forall|k: int|
                0 <= k < list.len() ==> enumerates(
                    texts((#[trigger] list@[k]).1@),
                    tables.roots_of(list@[k].0),
                ),
    {
        let id = ids[i];
        let ghost shorter = list@;
        assert(part_of_list(tables, limit, statement_for(WORKSPACE_ROOTS@, ids@[i as int])));
        match query_texts(connection, WORKSPACE_ROOTS, id) {
            Ok(roots) => {
                list.push((id, roots));
                assert(listed_ids(list@) =~= listed_ids(shorter).push(id));
                assert(ids@.take(i + 1) =~= ids@.take(i as int).push(id));
            },
            Err(error) => return Err(DbError::Sqlite(error)),
        }
    }
    assert(listed_ids(list@) =~= ids@);
    Ok(list)
}

/// Lists up to `limit` workspaces, the last written first, each with its roots.
/// The rows stay as they are.
pub fn list_recent(connection: &mut Connection, limit: i64) -> (r: Result<
    Vec<(i64, Vec<String>)>,
    DbError,
>)
    requires
        database(*old(connection)).valid(),
        0 <= limit,
    ensures
        database(*final(connection)).valid(),
        match r {
            Ok(list) => {
                &&& database(*old(connection)).pending is None
                &&& database(*final(connection)).same_rows(database(*old(connection)))
                &&& database(*final(connection)).refusals == database(*old(connection)).refusals
                &&& lists_recent(database(*old(connection)).committed, list@, limit as int)
            },
            Err(error) => {
                &&& error is Sqlite
                &&& read_failed(
                    database(*old(connection)),
                    limit,
                    database(*final(connection)),
                )
            },
        },
{
    let ghost tables = database(*connection).visible();
    assert(part_of_list(tables, limit, begin()));
    assert(part_of_list(tables, limit, commit()));
    match execute_batch(connection, BEGIN) {
        Ok(()) => {},
        Err(error) => return Err(DbError::Sqlite(error)),
    }
    let outcome = read_recent(connection, limit);
    finish(connection, outcome)
}

/// Whether `statement` is one of those by which up to `limit` workspaces of `tables`
/// are listed.
pub open spec fn part_of_list(tables: Tables, limit: i64, statement: Statement) -> bool {
    ||| statement == begin()
    ||| statement == statement_for(RECENT_WORKSPACES@, limit)
    ||| exists|ids: Seq<i64>, i: int|
        {
            &&& #[trigger] most_recent(tables.workspaces, ids, limit as int)
            &&& 0 <= i < ids.len()
            &&& statement == statement_for(WORKSPACE_ROOTS@, #[trigger] ids[i])
        }
    ||| statement == commit()
}

/// Whether SQLite has refused, between `before` and `after`, one statement, and
/// that by which up to `limit` workspaces were to be listed.
pub open spec fn list_refused(before: Database, limit: i64, after: Database) -> bool {
    exists|statement: Statement| #[trigger]
        part_of_list(before.visible(), limit, statement) && after.refusals
            == before.refusals.push(statement)
}

/// What a failed reading leaves: every row as it was, except that a transaction
/// that was open before may have ended. Where none was open, SQLite has refused a
/// statement of the reading.
pub open spec fn read_failed(before: Database, limit: i64, after: Database) -> bool {
    &&& after.committed == before.committed
    &&& before.pending is None ==> {
        &&& after.visible() == before.visible()
        &&& after.pending is Some ==> after.stuck
        &&& list_refused(before, limit, after)
    }
    &&& before.pending is Some ==> before.failed(begin(), false, after)
}

} // verus!
