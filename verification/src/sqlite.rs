//! The calls into SQLite, through the `rusqlite` crate.
//!
//! Nothing here is proved: each function makes one call and states what is
//! known of it, in the terms of [`crate::sql`]. A call on a connection can fail
//! for reasons of its own (no memory, a full disk), so none is promised to
//! succeed. A failure can end the open transaction, even where the statement
//! only reads, so whatever runs a statement takes the connection by `&mut`.

use vstd::prelude::*;
use rusqlite::{Connection, OptionalExtension};
use crate::model::{Database, Statement};
use crate::sql::{
    Param, batch_effect, blank, breaks_keys, changes_rows, enumerates, fits_lookup, lookup_answer,
    most_recent, reads_lookup, statement_effect, statement_for, texts_at, values,
};
use crate::workspace::texts;

verus! {

/// `rusqlite::Connection`, an open database.
#[verifier::external_type_specification]
#[verifier::external_body]
pub struct ExConnection(rusqlite::Connection);

/// `rusqlite::Error`, why a call failed.
#[verifier::external_type_specification]
#[verifier::external_body]
pub struct ExError(rusqlite::Error);

/// What the database behind a connection holds.
pub uninterp spec fn database(connection: Connection) -> Database;

/// `Connection::open_in_memory`: a new database, empty and private to the
/// connection.
#[verifier::external_body]
pub(crate) fn open_in_memory() -> (r: Result<Connection, rusqlite::Error>)
    ensures
        r matches Ok(connection) ==> database(connection).same_rows(blank()),
{
    Connection::open_in_memory()
}

/// `Connection::execute_batch`: runs the statements of `sql` one after another
/// up to the first that fails. For the schema and for the three statements that
/// open and close a transaction, the rows change as [`batch_effect`] says;
/// nothing is said of other texts.
#[verifier::external_body]
pub(crate) fn execute_batch(connection: &mut Connection, sql: &str) -> (r: Result<
    (),
    rusqlite::Error,
>)
    ensures
        batch_effect(sql@, database(*old(connection)), r is Ok, database(*final(connection))),
{
    connection.execute_batch(sql)
}

/// `Connection::is_autocommit`: whether no transaction is open.
#[verifier::external_body]
pub(crate) fn is_autocommit(connection: &Connection) -> (r: bool)
    requires
        database(*connection).ready,
    ensures
        r == (database(*connection).pending is None),
{
    connection.is_autocommit()
}

/// `Connection::execute`: runs one of the statements that change rows, with the
/// parameters in their order. If it succeeds, the keys allowed it, and the rows
/// change as [`statement_effect`] says, in the open transaction or, where there is
/// none, at once. If it fails, no row changes, but the open transaction may have
/// been undone; that is counted as a refusal unless the keys forbade it.
#[verifier::external_body]
pub(crate) fn execute(connection: &mut Connection, sql: &str, params: &[Param]) -> (r: Result<
    usize,
    rusqlite::Error,
>)
    requires
        database(*old(connection)).ready,
        changes_rows(sql@, values(params@)),
    ensures
        r is Ok ==> {
            let before = database(*old(connection));
            let after = database(*final(connection));
            &&& after == before.wrote(after.visible(), after.last_rowid)
            &&& statement_effect(
                sql@,
                values(params@),
                before.visible(),
                after.visible(),
                after.last_rowid,
            )
        },
        r is Err ==> {
            let before = database(*old(connection));
            let owed = !breaks_keys(sql@, values(params@), before.visible());
            let statement = Statement { sql: sql@, params: values(params@) };
            before.failed(statement, owed, database(*final(connection)))
        },
{
    connection.execute(
        sql,
        rusqlite::params_from_iter(
            params.iter().map(
                |p|
                    match p {
                        Param::Integer(i) => rusqlite::types::ToSqlOutput::from(*i),
                        Param::Text(t) => rusqlite::types::ToSqlOutput::from(*t),
                    },
            ),
        ),
    )
}

/// `Connection::last_insert_rowid`: the row id of the last insertion.
#[verifier::external_body]
pub(crate) fn last_insert_rowid(connection: &Connection) -> (r: i64)
    ensures
        r == database(*connection).last_rowid,
{
    connection.last_insert_rowid()
}

/// `Connection::query_row`, with `OptionalExtension::optional` for a query that
/// may select nothing: the first id that a lookup selects from the rows that are
/// visible now, with the parameters in their order and with the lists of roots
/// that its text has, as [`lookup_answer`] says. If it succeeds, nothing
/// changes, and the text was shorter than `i32::MAX` bytes. If it fails, no row
/// changes, but the open transaction may have been undone; that is counted as a
/// refusal.
#[verifier::external_body]
pub(crate) fn query_row(connection: &mut Connection, sql: &str, params: &[Param]) -> (r: Result<
    Option<i64>,
    rusqlite::Error,
>)
    requires
        database(*old(connection)).ready,
        exists|listed: Seq<int>, kept: Seq<int>, overlap: Seq<int>| #[trigger]
            reads_lookup(sql@, listed, kept, overlap) && fits_lookup(
                values(params@),
                listed,
                kept,
                overlap,
            ),
    ensures
        r matches Ok(first) ==> {
            &&& database(*final(connection)) == database(*old(connection))
            &&& sql@.len() < i32::MAX
            &&& forall|listed: Seq<int>, kept: Seq<int>, overlap: Seq<int>| #[trigger]
                reads_lookup(sql@, listed, kept, overlap) ==> lookup_answer(
                    database(*old(connection)).visible(),
                    texts_at(values(params@), listed),
                    texts_at(values(params@), kept),
                    texts_at(values(params@), overlap),
                    values(params@).last()->Integer_0 as int,
                    first,
                )
        },
        r is Err ==> database(*old(connection)).refused(
            Statement { sql: sql@, params: values(params@) },
            database(*final(connection)),
        ),
{
    let first = connection.query_row(
        sql,
        rusqlite::params_from_iter(
            params.iter().map(
                |p|
                    match p {
                        Param::Integer(i) => rusqlite::types::ToSqlOutput::from(*i),
                        Param::Text(t) => rusqlite::types::ToSqlOutput::from(*t),
                    },
            ),
        ),
        |row| row.get(0),
    );
    first.optional()
}

/// `Statement::query_map` on a statement of `Connection::prepare_cached`, for a
/// query that selects integers: the list of up to `limit` workspaces of those
/// that are visible now, read to its end. If it succeeds, nothing changes. If it
/// fails, no row changes, but the open transaction may have been undone; that is
/// counted as a refusal.
#[verifier::external_body]
pub(crate) fn query_integers(connection: &mut Connection, sql: &str, limit: i64) -> (r: Result<
    Vec<i64>,
    rusqlite::Error,
>)
    requires
        database(*old(connection)).ready,
        sql@ == "SELECT workspace_id FROM workspaces ORDER BY timestamp DESC LIMIT ?"@,
        0 <= limit,
    ensures
        r matches Ok(ids) ==> {
            &&& database(*final(connection)) == database(*old(connection))
            &&& most_recent(
                database(*old(connection)).visible().workspaces,
                ids@,
                limit as int,
            )
        },
        r is Err ==> database(*old(connection)).refused(
            statement_for(sql@, limit),
            database(*final(connection)),
        ),
{
    let mut statement = connection.prepare_cached(sql)?;
    let rows = statement.query_map([limit], |row| row.get(0))?;
    rows.collect()
}

/// `Statement::query_map` on a statement of `Connection::prepare_cached`, for a
/// query that selects texts: the visible roots of workspace `id`, each once and in
/// no particular order, read to their end. If it succeeds, nothing changes. If it
/// fails, no row changes, but the open transaction may have been undone; that is
/// counted as a refusal.
#[verifier::external_body]
pub(crate) fn query_texts(connection: &mut Connection, sql: &str, id: i64) -> (r: Result<
    Vec<String>,
    rusqlite::Error,
>)
    requires
        database(*old(connection)).ready,
        sql@ == "SELECT worktree_root FROM worktree_roots WHERE workspace_id = ?"@,
    ensures
        r matches Ok(roots) ==> {
            &&& database(*final(connection)) == database(*old(connection))
            &&& enumerates(texts(roots@), database(*old(connection)).visible().roots_of(id))
        },
        r is Err ==> database(*old(connection)).refused(
            statement_for(sql@, id),
            database(*final(connection)),
        ),
{
    let mut statement = connection.prepare_cached(sql)?;
    let rows = statement.query_map([id], |row| row.get(0))?;
    rows.collect()
}

} // verus!
