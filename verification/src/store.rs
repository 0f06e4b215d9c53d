//! The operations on the two tables, on a connection.

use vstd::prelude::*;
use rusqlite::Connection;
use crate::lookup::get_workspace_id;
use crate::model::{Database, Statement, Tables};
use crate::sql::{
    BEGIN, COMMIT, DELETE_ROOTS, DELETE_WORKSPACE, INSERT_ROOT, NEW_WORKSPACE, Param, ROLLBACK,
    SqlValue, TOUCH_WORKSPACE, begin, commit, insert_root, lookup, new_workspace,
    statement_effect, statement_for, values,
};
use crate::sqlite::{database, execute, execute_batch, is_autocommit, last_insert_rowid};
use crate::workspace::{DbError, WorkspaceId, texts};

verus! {

/// Undoes the open transaction, if there is one. It stays open if SQLite
/// refuses even that.
fn abandon(connection: &mut Connection)
    requires
        database(*old(connection)).ready,
    ensures
        database(*old(connection)).after_abandon(database(*final(connection))),
        database(*final(connection)).refusals == database(*old(connection)).refusals,
{
    if !is_autocommit(connection) {
        let _ = execute_batch(connection, ROLLBACK);
    }
}

/// Commits the transaction if `outcome` is a success, and undoes it if it is not
/// or if the commit fails.
pub(crate) fn finish<T>(connection: &mut Connection, outcome: Result<T, DbError>) -> (r: Result<
    T,
    DbError,
>)
    requires
        database(*old(connection)).ready,
    ensures
        r matches Ok(value) ==> {
            &&& outcome == Ok::<T, DbError>(value)
            &&& database(*old(connection)).pending matches Some(tables)
            &&& database(*final(connection)).same_rows(
                Database { committed: tables, pending: None, ..database(*old(connection)) },
            )
            &&& database(*final(connection)).refusals == database(*old(connection)).refusals
        },
        r is Err ==> database(*old(connection)).after_abandon(database(*final(connection))),
        outcome matches Err(error) ==> {
            &&& r == Err::<T, DbError>(error)
            &&& database(*final(connection)).refusals == database(*old(connection)).refusals
        },
        outcome is Ok ==> (r matches Err(error) ==> {
            let owed = database(*old(connection)).pending is Some;
            &&& error is Sqlite
            &&& database(*final(connection)).refusals == if owed {
                database(*old(connection)).refusals.push(commit())
            } else {
                database(*old(connection)).refusals
            }
        }),
{
    match outcome {
        Ok(value) => match execute_batch(connection, COMMIT) {
            Ok(()) => Ok(value),
            Err(error) => {
                abandon(connection);
                Err(DbError::Sqlite(error))
            },
        },
        Err(error) => {
            abandon(connection);
            Err(error)
        },
    }
}

/// Runs a statement with the workspace `id` as its one parameter.
fn execute_for(connection: &mut Connection, sql: &str, id: i64) -> (r: Result<(), DbError>)
    requires
        database(*old(connection)).ready,
        sql@ == DELETE_WORKSPACE@ || sql@ == DELETE_ROOTS@ || sql@ == TOUCH_WORKSPACE@,
    ensures
        r is Ok ==> {
            let before = database(*old(connection));
            let after = database(*final(connection));
            &&& after == before.wrote(after.visible(), after.last_rowid)
            &&& statement_effect(
                sql@,
                seq![SqlValue::Integer(id)],
                before.visible(),
                after.visible(),
                after.last_rowid,
            )
        },
        r matches Err(error) ==> {
            &&& error is Sqlite
            &&& database(*old(connection)).refused(
                statement_for(sql@, id),
                database(*final(connection)),
            )
        },
{
    let params: [Param; 1] = [Param::Integer(id)];
    assert(values(params@) =~= seq![SqlValue::Integer(id)]);
    match execute(connection, sql, &params) {
        Ok(_) => Ok(()),
        Err(error) => Err(DbError::Sqlite(error)),
    }
}

/// Adds a workspace without roots, under an id that no workspace ever had.
pub fn insert_workspace(connection: &mut Connection) -> (r: Result<WorkspaceId, DbError>)
    requires
        database(*old(connection)).valid(),
    ensures
        database(*final(connection)).valid(),
        match r {
            Ok(id) => {
                let before = database(*old(connection));
                let after = database(*final(connection));
                let time = after.visible().workspaces[id.0].time;
                &&& id.0 == before.visible().last_id + 1
                &&& after.same_rows(
                    before.wrote(before.visible().with_new_workspace(time), before.last_rowid),
                )
                &&& after.refusals == before.refusals
            },
            Err(error) => {
                &&& error is Sqlite
                &&& database(*old(connection)).refused(
                    new_workspace(),
                    database(*final(connection)),
                )
            },
        },
{
    let params: [Param; 0] = [];
    assert(values(params@) =~= seq![]);
    match execute(connection, NEW_WORKSPACE, &params) {
        Ok(_) => {
            let id = last_insert_rowid(connection);
            proof {
                let before = database(*old(connection)).visible();
                let after = database(*connection).visible();
                before.lemma_with_new_workspace(after.workspaces[id].time);
            }
            Ok(WorkspaceId(id))
        },
        Err(error) => Err(DbError::Sqlite(error)),
    }
}

/// The workspace that goes if workspace `id` is given roots that already name
/// `preexisting`: that one, unless it is workspace `id` itself.
pub fn redundant(preexisting: Option<WorkspaceId>, id: i64) -> (r: Option<i64>)
    ensures
        r == match preexisting {
            Some(other) => if other.0 != id { Some(other.0) } else { None },
            None => None,
        },
{
    match preexisting {
        Some(other) if other.0 != id => Some(other.0),
        _ => None,
    }
}

/// In the open transaction, gives workspace `id` exactly the roots
/// `worktree_roots`, removes the other workspace that had them, and stamps
/// workspace `id` with the current time.
fn write_roots(connection: &mut Connection, id: i64, worktree_roots: &[String]) -> (r: Result<
    (),
    DbError,
>)
    requires
        database(*old(connection)).ready,
        database(*old(connection)).pending matches Some(tables) && tables.valid(),
    ensures
        database(*final(connection)).ready,
        database(*final(connection)).committed == database(*old(connection)).committed,
        match r {
            Ok(()) => {
                let before = database(*old(connection)).visible();
                let after = database(*final(connection));
                let roots = texts(worktree_roots@);
                &&& before.accepts(id, roots)
                &&& after.pending == Some(
                    before.updated(id, roots, after.visible().workspaces[id].time),
                )
                &&& after.refusals == database(*old(connection)).refusals
            },
            Err(error) => {
                let before = database(*old(connection));
                let after = database(*final(connection));
                let owed = before.visible().accepts(id, texts(worktree_roots@));
                &&& error is Sqlite
                &&& {
                    ||| !owed && after.refusals == before.refusals
                    ||| update_refused(before, id, texts(worktree_roots@), after)
                }
                &&& database(*final(connection)).pending matches Some(tables) ==> tables.sound()
            },
        },
{
    let ghost before = database(*old(connection)).visible();
    let ghost roots = texts(worktree_roots@);
    assert(part_of_update(before, id, roots, lookup(roots)));
    let preexisting = match get_workspace_id(worktree_roots, connection) {
        Ok(preexisting) => preexisting,
        Err(error) => return Err(error),
    };
    if let Some(other) = redundant(preexisting, id) {
        proof {
            before.lemma_without_workspace(other);
            assert(before.displaced(other, id, roots));
            assert(part_of_update(before, id, roots, statement_for(DELETE_WORKSPACE@, other)));
        }
        match execute_for(connection, DELETE_WORKSPACE, other) {
            Ok(()) => {},
            Err(error) => return Err(error),
        }
    }
    let ghost pruned = database(*connection).visible();
    assert(pruned.sound());
    proof {
        pruned.lemma_without_roots(id);
        assert(part_of_update(before, id, roots, statement_for(DELETE_ROOTS@, id)));
    }
    match execute_for(connection, DELETE_ROOTS, id) {
        Ok(()) => {},
        Err(error) => return Err(error),
    }
    let ghost cleared = database(*connection).visible();
    let n: usize = worktree_roots.len();
    for i in 0..n
        invariant
            n == worktree_roots.len(),
            roots == texts(worktree_roots@),
            database(*connection).ready,
            database(*connection).committed == database(*old(connection)).committed,
            database(*connection).pending is Some,
            database(*connection).refusals == database(*old(connection)).refusals,
            before == database(*old(connection)).visible(),
            cleared.sound(),
            forall|root: Seq<char>| !(#[trigger] cleared.roots.contains((id, root))),
            cleared.workspaces.contains_key(id) <==> before.workspaces.contains_key(id),
            database(*connection).visible().sound(),
            database(*connection).visible().workspaces == cleared.workspaces,
            database(*connection).visible().last_id == cleared.last_id,
            database(*connection).visible().roots =~= cleared.roots.union(
                Set::new(
                    |row: (i64, Seq<char>)| row.0 == id && roots.take(i as int).contains(row.1),
                ),
            ),
            roots.take(i as int).no_duplicates(),
            i > 0 ==> cleared.workspaces.contains_key(id),
    {
        let ghost current = database(*connection).visible();
        let params: [Param; 2] = [Param::Integer(id), Param::Text(worktree_roots[i].as_str())];
        assert(values(params@) =~= seq![
            SqlValue::Integer(id),
            SqlValue::Text(roots[i as int]),
        ]);
        proof {
            assert(Statement { sql: INSERT_ROOT@, params: values(params@) } == insert_root(
                id,
                roots[i as int],
            ));
            assert(part_of_update(before, id, roots, insert_root(id, roots[i as int])));
            if before.accepts(id, roots) {
                assert(!roots.take(i as int).contains(roots[i as int]));
            }
        }
        match execute(connection, INSERT_ROOT, &params) {
            Ok(_) => {},
            Err(error) => return Err(DbError::Sqlite(error)),
        }
        proof {
            let taken = roots.take(i as int);
            let next = roots.take(i + 1);
            assert(next =~= taken.push(roots[i as int]));
            assert(!taken.contains(roots[i as int]));
            assert forall|root: Seq<char>|
                next.contains(root) <==> taken.contains(root) || root == roots[i as int] by {
                if taken.contains(root) {
                    let k = choose|k: int| 0 <= k < taken.len() && taken[k] == root;
                    assert(next[k] == root);
                }
                if root == roots[i as int] {
                    assert(next[i as int] == root);
                }
            }
            current.lemma_with_root(id, roots[i as int]);
        }
    }
    assert(roots.take(n as int) =~= roots);
    assert(part_of_update(before, id, roots, statement_for(TOUCH_WORKSPACE@, id)));
    match execute_for(connection, TOUCH_WORKSPACE, id) {
        Ok(()) => {},
        Err(error) => return Err(error),
    }
    proof {
        let after = database(*connection).visible();
        assert forall|w: i64| before.displaced(w, id, roots) <==> (preexisting matches Some(p)
            && p.0 != id && w == p.0) by {
            if before.displaced(w, id, roots) {
                let p = preexisting.unwrap().0;
                assert(before.roots_of(w) =~= before.roots_of(p));
                assert(before.roots_of(w).contains(roots[0]));
            }
        }
        assert(after =~= before.updated(id, roots, after.workspaces[id].time));
    }
    Ok(())
}

/// Gives workspace `id` exactly the roots `worktree_roots`, removes the other
/// workspace that had them, and stamps workspace `id` with the current time.
///
/// It is done as a whole or not at all. It fails if a root occurs twice, and if
/// there are roots but no workspace `id`.
pub fn replace_roots(connection: &mut Connection, id: i64, worktree_roots: &[String]) -> (r: Result<
    (),
    DbError,
>)
    requires
        database(*old(connection)).valid(),
    ensures
        database(*final(connection)).valid(),
        update_outcome(
            database(*old(connection)),
            id,
            texts(worktree_roots@),
            r is Ok,
            database(*final(connection)),
        ),
        r matches Err(error) ==> error is Sqlite,
{
    let ghost tables = database(*connection).visible();
    let ghost roots = texts(worktree_roots@);
    assert(part_of_update(tables, id, roots, begin()));
    assert(part_of_update(tables, id, roots, commit()));
    match execute_batch(connection, BEGIN) {
        Ok(()) => {},
        Err(error) => return Err(DbError::Sqlite(error)),
    }
    let outcome = write_roots(connection, id, worktree_roots);
    proof {
        if outcome is Ok {
            let before = database(*old(connection)).committed;
            let after = database(*connection).visible();
            before.lemma_updated(id, texts(worktree_roots@), after.workspaces[id].time);
        }
    }
    finish(connection, outcome)
}

/// Whether `statement` is one of those by which workspace `id` of `tables` is given
/// the roots `roots`.
pub open spec fn part_of_update(
    tables: Tables,
    id: i64,
    roots: Seq<Seq<char>>,
    statement: Statement,
) -> bool {
    ||| statement == begin()
    ||| statement == lookup(roots)
    ||| exists|other: i64| #[trigger]
        tables.displaced(other, id, roots) && statement == statement_for(DELETE_WORKSPACE@, other)
    ||| statement == statement_for(DELETE_ROOTS@, id)
    ||| exists|k: int|
        0 <= k < roots.len() && statement == insert_root(id, #[trigger] roots[k])
    ||| statement == statement_for(TOUCH_WORKSPACE@, id)
    ||| statement == commit()
}

/// Whether SQLite has refused, between `before` and `after`, one statement, and
/// that by which workspace `id` was to be given the roots `roots`.
pub open spec fn update_refused(
    before: Database,
    id: i64,
    roots: Seq<Seq<char>>,
    after: Database,
) -> bool {
    exists|statement: Statement| #[trigger]
        part_of_update(before.visible(), id, roots, statement) && after.refusals
            == before.refusals.push(statement)
}

/// How giving workspace `id` the roots `roots` changes a database.
///
/// A success writes [`crate::model::Tables::updated`]. A failure leaves the
/// committed rows as they were, and no transaction open, unless SQLite refused to
/// undo it. It comes of a transaction that was open before, of roots that the
/// tables do not accept, or of a refusal by SQLite.
pub open spec fn update_outcome(
    before: Database,
    id: i64,
    roots: Seq<Seq<char>>,
    ok: bool,
    after: Database,
) -> bool {
    if ok {
        let time = after.committed.workspaces[id].time;
        &&& before.pending is None
        &&& before.committed.accepts(id, roots)
        &&& after.same_rows(
            Database { committed: before.committed.updated(id, roots, time), ..before },
        )
        &&& after.refusals == before.refusals
    } else {
        &&& after.committed == before.committed
        &&& after.refusals == before.refusals || update_refused(before, id, roots, after)
        &&& before.pending is None && before.committed.accepts(id, roots) ==> update_refused(
            before,
            id,
            roots,
            after,
        )
        &&& before.pending is Some ==> before.failed(begin(), false, after)
        &&& after.pending is Some ==> after.stuck
    }
}

} // verus!
