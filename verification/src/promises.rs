//! What each operation is for, in terms of the rows, of the statements that SQLite
//! refused, and of nothing else.

use vstd::prelude::*;
use std::path::PathBuf;
use crate::db::{creation_outcome, find_outcome, list_outcome};
use crate::laws::{
    at_most_one_workspace_matches, lookup_has_the_list_in_three_places, lookup_ignores_order,
    matching_workspace_exists,
};
use crate::lookup::lookup_outcome;
use crate::model::{Database, Statement, Tables};
use crate::path::{path_text, path_texts};
use crate::recent::part_of_list;
use crate::sql::{
    BEGIN, COMMIT, DELETE_ROOTS, DELETE_WORKSPACE, INSERT_ROOT, LOOKUP_HEAD, LOOKUP_OUTSIDE,
    LOOKUP_OVERLAP, LOOKUP_TAIL, NEW_WORKSPACE, RECENT_WORKSPACES, ROLLBACK, SqlValue,
    TOUCH_WORKSPACE, WORKSPACE_M_1, WORKSPACE_ROOTS, begin, commit, created, lookup,
    new_workspace, reads_lookup, text_le,
};
use crate::store::{part_of_update, update_outcome};
use crate::workspace::{DbError, WorkspaceId, texts};

verus! {

/// Whether the roots of workspace `id` are exactly `roots`, of which there is at
/// least one, and none occurs twice.
pub open spec fn has_exactly(tables: Tables, id: i64, roots: Seq<Seq<char>>) -> bool {
    &&& roots.len() > 0
    &&& forall|i: int, j: int|
        0 <= i < j < roots.len() ==> #[trigger] roots[i] != #[trigger] roots[j]
    &&& forall|i: int| 0 <= i < roots.len() ==> tables.roots.contains((id, #[trigger] roots[i]))
    &&& forall|root: Seq<char>| #[trigger]
        tables.roots.contains((id, root)) ==> roots.contains(root)
}

/// A list of roots names a workspace if the workspace has exactly these roots.
proof fn lemma_registered(tables: Tables, id: i64, roots: Seq<Seq<char>>)
    ensures
        tables.registered(id, roots) <==> has_exactly(tables, id, roots),
{
    if tables.registered(id, roots) {
        assert forall|i: int| 0 <= i < roots.len() implies tables.roots.contains(
            (id, #[trigger] roots[i]),
        ) by {
            assert(roots.to_set().contains(roots[i]));
            assert(tables.roots_of(id).contains(roots[i]));
        }
        assert forall|root: Seq<char>| #[trigger]
            tables.roots.contains((id, root)) implies roots.contains(root) by {
            assert(tables.roots_of(id).contains(root));
        }
    }
    if has_exactly(tables, id, roots) {
        assert(tables.roots_of(id) =~= roots.to_set());
    }
}

/// Whether `statement` is the question which workspace has the roots `roots`: it
/// has them as its parameters, in their order, and their number behind them, and
/// each of the three lists in its text is that of all these roots.
pub open spec fn asks_for(statement: Statement, roots: Seq<Seq<char>>) -> bool {
    let numbers = Seq::new(roots.len(), |k: int| k + 1);
    &&& reads_lookup(statement.sql, numbers, numbers, numbers)
    &&& statement.params.len() == roots.len() + 1
    &&& forall|k: int|
        0 <= k < roots.len() ==> #[trigger] statement.params[k] == SqlValue::Text(roots[k])
    &&& statement.params[roots.len() as int] == SqlValue::Integer(roots.len() as i64)
}

/// The lookup for a list of roots asks for them.
proof fn lemma_lookup_asks(roots: Seq<Seq<char>>)
    ensures
        asks_for(lookup(roots), roots),
{
    lookup_has_the_list_in_three_places(roots.len());
}

/// Whether SQLite refused nothing between `before` and `after` but `statement`.
pub open spec fn refused_only(before: Database, statement: Statement, after: Database) -> bool {
    after.refusals =~= before.refusals + seq![statement]
}

/// A lookup finds the workspace that has exactly the given roots, finds nothing if
/// there is none, and changes nothing.
pub proof fn lookup_finds_the_workspace(
    before: Database,
    roots: Seq<Seq<char>>,
    found: Option<WorkspaceId>,
    after: Database,
    id: i64,
)
    requires
        before.visible().valid(),
        lookup_outcome(before, roots, Ok(found), after),
    ensures
        found == Some(WorkspaceId(id)) <==> has_exactly(before.visible(), id, roots),
        found is None <==> forall|other: i64| !has_exactly(before.visible(), other, roots),
        after == before,
{
    let tables = before.visible();
    assert forall|other: i64| tables.registered(other, roots) <==> has_exactly(
        tables,
        other,
        roots,
    ) by {
        lemma_registered(tables, other, roots);
    }
    if let Some(other) = found {
        assert(has_exactly(tables, other.0, roots));
        if has_exactly(tables, id, roots) {
            assert(tables.roots_of(id) =~= tables.roots_of(other.0));
            assert(tables.roots_of(id).contains(roots[0]));
        }
    }
}

/// A lookup fails only if SQLite refused it, that is the question for the given
/// roots and no other.
pub proof fn lookup_fails_only_if_refused(
    before: Database,
    roots: Seq<Seq<char>>,
    error: DbError,
    after: Database,
)
    requires
        lookup_outcome(before, roots, Err(error), after),
    ensures
        exists|asked: Statement| #[trigger]
            asks_for(asked, roots) && refused_only(before, asked, after),
        after.committed == before.committed,
        after.visible() == before.visible() || after.visible() == before.committed,
{
    lemma_lookup_asks(roots);
    assert(refused_only(before, lookup(roots), after));
}

/// Two lookups with nothing in between find the same, in whatever order the roots
/// are given.
pub proof fn lookups_agree(
    before: Database,
    roots: Seq<Seq<char>>,
    first: Option<WorkspaceId>,
    between: Database,
    permuted: Seq<Seq<char>>,
    second: Option<WorkspaceId>,
    after: Database,
)
    requires
        before.visible().valid(),
        roots.to_multiset() == permuted.to_multiset(),
        lookup_outcome(before, roots, Ok(first), between),
        lookup_outcome(between, permuted, Ok(second), after),
    ensures
        first == second,
{
    let tables = before.visible();
    assert forall|id: i64| tables.registered(id, roots) <==> tables.registered(id, permuted) by {
        lookup_ignores_order(tables, id, roots, permuted);
    }
    if let Some(id) = first {
        assert(tables.registered(id.0, permuted));
        if let Some(other) = second {
            at_most_one_workspace_matches(tables, id.0, other.0, permuted);
        }
    }
    if let Some(other) = second {
        assert(tables.registered(other.0, roots));
    }
}

/// If a workspace has exactly the given roots, finding or making a workspace for
/// them gives that one and changes nothing, unless SQLite refuses the question for
/// these very roots.
pub proof fn workspace_with_these_roots_is_found(
    before: Database,
    roots: Seq<Seq<char>>,
    id: i64,
    found: WorkspaceId,
    after: Database,
)
    requires
        has_exactly(before.visible(), id, roots),
        find_outcome(Some(before), roots, found, Some(after)),
        after.refusals.len() > before.refusals.len() ==> !asks_for(
            after.refusals[before.refusals.len() as int],
            roots,
        ),
    ensures
        after == before,
        has_exactly(before.visible(), found.0, roots),
        before.visible().valid() ==> found == WorkspaceId(id),
{
    let tables = before.visible();
    lemma_registered(tables, id, roots);
    lemma_registered(tables, found.0, roots);
    lemma_lookup_asks(roots);
    assert(tables.registered(id, roots));
    if !tables.registered(found.0, roots) || after != before {
        let refused = choose|refused: Database| #[trigger]
            before.refused(lookup(roots), refused) && creation_outcome(
                Some(refused),
                found,
                Some(after),
            );
        assert(refused.refusals == before.refusals.push(lookup(roots)));
        assert(after.refusals[before.refusals.len() as int] == lookup(roots));
        assert(false);
    }
    if tables.valid() {
        at_most_one_workspace_matches(tables, id, found.0, roots);
    }
}

/// If no workspace has exactly the given roots, finding or making a workspace for
/// them makes one, under the next id and without roots, unless SQLite refuses.
pub proof fn workspace_is_made_where_none_has_these_roots(
    before: Database,
    roots: Seq<Seq<char>>,
    made: WorkspaceId,
    after: Database,
)
    requires
        before.valid(),
        forall|id: i64| !has_exactly(before.visible(), id, roots),
        find_outcome(Some(before), roots, made, Some(after)),
        after.refusals == before.refusals,
    ensures
        made.0 == before.visible().last_id + 1,
        after.visible().workspaces.contains_key(made.0),
        forall|other: i64|
            other != made.0 ==> (after.visible().workspaces.contains_key(other)
                <==> #[trigger] before.visible().workspaces.contains_key(other)),
        after.visible().roots == before.visible().roots,
{
    lemma_registered(before.visible(), made.0, roots);
    assert forall|refused: Database| #[trigger]
        before.refused(lookup(roots), refused) implies !creation_outcome(
        Some(refused),
        made,
        Some(after),
    ) by {
        assert(refused.refusals.len() == before.refusals.len() + 1);
        assert(refused.refusals.push(new_workspace()).len() == before.refusals.len() + 2);
    }
    assert(before.refusals.push(new_workspace()).len() == before.refusals.len() + 1);
}

/// If SQLite refuses the question for the given roots, finding or making a
/// workspace for them makes one, as if none had these roots.
pub proof fn workspace_is_made_where_the_question_is_refused(
    before: Database,
    roots: Seq<Seq<char>>,
    asked: Statement,
    made: WorkspaceId,
    after: Database,
)
    requires
        before.valid(),
        before.pending is None,
        find_outcome(Some(before), roots, made, Some(after)),
        asks_for(asked, roots),
        refused_only(before, asked, after),
    ensures
        made.0 == before.visible().last_id + 1,
        after.visible().workspaces.contains_key(made.0),
        after.visible().roots == before.visible().roots,
{
    assert(after.refusals.len() == before.refusals.len() + 1);
    assert(after.refusals.last() == asked);
    assert(new_workspace() != asked) by {
        assert(new_workspace().params.len() == 0);
    }
    assert(before.refusals.push(new_workspace()).last() == new_workspace());
    let refused = choose|refused: Database| #[trigger]
        before.refused(lookup(roots), refused) && creation_outcome(
            Some(refused),
            made,
            Some(after),
        );
    assert(refused.refusals.len() == before.refusals.len() + 1);
    assert(refused.refusals.push(new_workspace()).len() == before.refusals.len() + 2);
}

/// Finding or making a workspace gives the default only if SQLite refused the
/// insertion of one.
pub proof fn default_is_given_only_if_the_insertion_is_refused(
    before: Database,
    roots: Seq<Seq<char>>,
    after: Database,
)
    requires
        before.valid(),
        find_outcome(Some(before), roots, WorkspaceId(0), Some(after)),
    ensures
        after.refusals.len() > before.refusals.len(),
        after.refusals.last() == (Statement {
            sql: "INSERT INTO workspaces DEFAULT VALUES;"@,
            params: seq![],
        }),
{
    if before.visible().registered(0, roots) {
        matching_workspace_exists(before.visible(), 0, roots);
    }
    let insertion = Statement { sql: "INSERT INTO workspaces DEFAULT VALUES;"@, params: seq![] };
    assert(new_workspace() == insertion);
    assert(before.refusals.push(insertion).last() == insertion);
    assert forall|refused: Database| #[trigger]
        before.refused(lookup(roots), refused) implies refused.refusals.len()
        == before.refusals.len() + 1 && refused.refusals.push(insertion).last() == insertion
        && refused.refusals.push(insertion).len() == before.refusals.len() + 2 by {}
}

/// Making a workspace adds one row, under the next id, and nothing else, however
/// many workspaces there are. It gives the default only if SQLite refused that
/// very insertion, and then no row is added.
pub proof fn workspace_is_made_unless_the_insertion_is_refused(
    before: Database,
    id: WorkspaceId,
    after: Database,
)
    requires
        before.valid(),
        creation_outcome(Some(before), id, Some(after)),
    ensures
        id == WorkspaceId(0) <==> refused_only(
            before,
            Statement { sql: "INSERT INTO workspaces DEFAULT VALUES;"@, params: seq![] },
            after,
        ),
        id == WorkspaceId(0) <==> after.refusals != before.refusals,
        id == WorkspaceId(0) ==> after.visible() == before.visible() || after.visible()
            == before.committed,
        id != WorkspaceId(0) ==> {
            &&& id.0 == before.visible().last_id + 1
            &&& after.visible().last_id == id.0
            &&& after.visible().workspaces.contains_key(id.0)
            &&& forall|other: i64|
                other != id.0 ==> (after.visible().workspaces.contains_key(other)
                    <==> #[trigger] before.visible().workspaces.contains_key(other))
            &&& forall|other: i64| #[trigger]
                before.visible().workspaces.contains_key(other)
                    ==> after.visible().workspaces[other] == before.visible().workspaces[other]
            &&& after.visible().roots == before.visible().roots
        },
{
    let refused = before.refusals + seq![
        Statement { sql: "INSERT INTO workspaces DEFAULT VALUES;"@, params: seq![] },
    ];
    assert(new_workspace() == refused.last());
    assert(refused =~= before.refusals.push(new_workspace()));
    assert(refused.len() == before.refusals.len() + 1);
}

/// An update that succeeds gives the workspace exactly the given roots, stamps it
/// once more, removes the other workspace that had exactly these roots, with its
/// roots, and touches no other.
pub proof fn update_does_what_it_is_for(
    before: Database,
    id: i64,
    roots: Seq<Seq<char>>,
    after: Database,
    other: i64,
    root: Seq<char>,
)
    requires
        update_outcome(before, id, roots, true, after),
        other != id,
    ensures
        after.visible().roots.contains((id, root)) <==> roots.contains(root),
        after.visible().workspaces.contains_key(id) <==> before.visible().workspaces.contains_key(
            id,
        ),
        after.visible().workspaces[id].writes == before.visible().workspaces[id].writes + 1
            || !before.visible().workspaces.contains_key(id),
        has_exactly(before.visible(), other, roots) ==> {
            &&& !after.visible().workspaces.contains_key(other)
            &&& !after.visible().roots.contains((other, root))
        },
        !has_exactly(before.visible(), other, roots) ==> {
            &&& after.visible().workspaces.contains_key(other)
                <==> before.visible().workspaces.contains_key(other)
            &&& before.visible().workspaces.contains_key(other)
                ==> after.visible().workspaces[other] == before.visible().workspaces[other]
            &&& after.visible().roots.contains((other, root))
                <==> before.visible().roots.contains((other, root))
        },
        after.visible().last_id == before.visible().last_id,
        before.pending is None,
        after.pending is None,
        after.refusals == before.refusals,
{
    lemma_registered(before.visible(), other, roots);
}

/// Whether `statement` is one by which workspace `id` is given the roots `roots`:
/// it opens or commits the transaction, asks for these roots, removes another
/// workspace that has exactly them, removes the roots of workspace `id`, gives it
/// one of these roots, or stamps it.
pub open spec fn saves(
    tables: Tables,
    id: i64,
    roots: Seq<Seq<char>>,
    statement: Statement,
) -> bool {
    ||| statement == Statement { sql: "BEGIN DEFERRED"@, params: seq![] }
    ||| asks_for(statement, roots)
    ||| exists|other: i64|
        {
            &&& other != id
            &&& #[trigger] has_exactly(tables, other, roots)
            &&& statement == Statement {
                sql: "DELETE FROM workspaces WHERE workspace_id = ?"@,
                params: seq![SqlValue::Integer(other)],
            }
        }
    ||| statement == Statement {
        sql: "DELETE FROM worktree_roots WHERE workspace_id = ?"@,
        params: seq![SqlValue::Integer(id)],
    }
    ||| exists|k: int|
        {
            &&& 0 <= k < roots.len()
            &&& statement == Statement {
                sql: "INSERT INTO worktree_roots(workspace_id, worktree_root) VALUES (?, ?)"@,
                params: seq![SqlValue::Integer(id), SqlValue::Text(#[trigger] roots[k])],
            }
        }
    ||| statement == Statement {
        sql: "UPDATE workspaces SET timestamp = CURRENT_TIMESTAMP WHERE workspace_id = ?"@,
        params: seq![SqlValue::Integer(id)],
    }
    ||| statement == Statement { sql: "COMMIT"@, params: seq![] }
}

/// An update fails only if a root occurs twice, if there are roots but no such
/// workspace, or if SQLite refused one of the statements that it is made of. It
/// fails in the first two cases whatever SQLite does.
pub proof fn update_fails_only_if_refused(
    before: Database,
    id: i64,
    roots: Seq<Seq<char>>,
    ok: bool,
    after: Database,
)
    requires
        before.pending is None,
        update_outcome(before, id, roots, ok, after),
    ensures
        ok ==> roots.no_duplicates(),
        ok && roots.len() > 0 ==> before.visible().workspaces.contains_key(id),
        !ok && roots.no_duplicates() && (roots.len() > 0
            ==> before.visible().workspaces.contains_key(id)) ==> exists|statement: Statement|
            #[trigger]
            saves(before.visible(), id, roots, statement) && refused_only(
                before,
                statement,
                after,
            ),
        !ok ==> after.committed == before.committed,
        after.pending is Some ==> after.stuck,
{
    let tables = before.visible();
    if !ok && roots.no_duplicates() && (roots.len() > 0 ==> tables.workspaces.contains_key(id)) {
        let statement = choose|statement: Statement| #[trigger]
            part_of_update(tables, id, roots, statement) && after.refusals
                == before.refusals.push(statement);
        lemma_lookup_asks(roots);
        assert(begin() == Statement { sql: "BEGIN DEFERRED"@, params: seq![] });
        assert(commit() == Statement { sql: "COMMIT"@, params: seq![] });
        assert forall|other: i64| #[trigger] tables.displaced(other, id, roots) implies has_exactly(
            tables,
            other,
            roots,
        ) by {
            lemma_registered(tables, other, roots);
        }
        assert(saves(tables, id, roots, statement));
        assert(refused_only(before, statement, after));
    }
}

/// Whether `statement` is one by which up to `limit` workspaces are listed: it
/// opens or commits the transaction, asks for up to `limit` ids, or asks for the
/// roots of a workspace that exists.
pub open spec fn lists(tables: Tables, limit: i64, statement: Statement) -> bool {
    ||| statement == Statement { sql: "BEGIN DEFERRED"@, params: seq![] }
    ||| statement == Statement {
        sql: "SELECT workspace_id FROM workspaces ORDER BY timestamp DESC LIMIT ?"@,
        params: seq![SqlValue::Integer(limit)],
    }
    ||| exists|id: i64|
        {
            &&& #[trigger] tables.workspaces.contains_key(id)
            &&& limit > 0
            &&& statement == Statement {
                sql: "SELECT worktree_root FROM worktree_roots WHERE workspace_id = ?"@,
                params: seq![SqlValue::Integer(id)],
            }
        }
    ||| statement == Statement { sql: "COMMIT"@, params: seq![] }
}

/// Listing fails only if SQLite cannot count up to the limit, or if it refused one
/// of the statements that the listing is made of.
pub proof fn listing_fails_only_if_refused(
    before: Database,
    limit: usize,
    error: DbError,
    after: Database,
)
    requires
        before.pending is None,
        list_outcome(before, limit, Err(error), after),
    ensures
        error is LimitTooLarge <==> limit > i64::MAX,
        limit <= i64::MAX ==> exists|statement: Statement| #[trigger]
            lists(before.visible(), limit as i64, statement) && refused_only(
                before,
                statement,
                after,
            ),
        after.visible() == before.visible(),
        after.pending is Some ==> after.stuck,
{
    let tables = before.visible();
    if limit <= i64::MAX {
        let statement = choose|statement: Statement| #[trigger]
            part_of_list(tables, limit as i64, statement) && after.refusals
                == before.refusals.push(statement);
        assert(begin() == Statement { sql: "BEGIN DEFERRED"@, params: seq![] });
        assert(commit() == Statement { sql: "COMMIT"@, params: seq![] });
        assert(lists(tables, limit as i64, statement));
        assert(refused_only(before, statement, after));
    }
}

/// A list shows as many workspaces as there are, or as the limit allows, each once,
/// none before one that was written later, and leaves out none that was written
/// later than one of them. It shows each with all of its roots, each once, and
/// changes nothing.
pub proof fn list_shows_the_last_written(
    before: Database,
    limit: usize,
    list: Vec<(WorkspaceId, Vec<PathBuf>)>,
    after: Database,
    i: int,
    j: int,
    root: Seq<char>,
    other: i64,
)
    requires
        list_outcome(before, limit, Ok(list), after),
    ensures
        list@.len() == limit || list@.len() == before.visible().workspaces.dom().len(),
        list@.len() <= limit,
        list@.len() <= before.visible().workspaces.dom().len(),
        0 <= i < list@.len() ==> {
            let id = list@[i].0.0;
            &&& before.visible().workspaces.contains_key(id)
            &&& path_texts(list@[i].1@).no_duplicates()
            &&& path_texts(list@[i].1@).contains(root) <==> before.visible().roots.contains(
                (id, root),
            )
            &&& before.visible().workspaces.contains_key(other) && (forall|k: int|
                0 <= k < list@.len() ==> (#[trigger] list@[k]).0.0 != other) ==> text_le(
                before.visible().workspaces[other].time,
                before.visible().workspaces[id].time,
            )
        },
        0 <= i < j < list@.len() ==> {
            &&& list@[i].0 != list@[j].0
            &&& text_le(
                before.visible().workspaces[list@[j].0.0].time,
                before.visible().workspaces[list@[i].0.0].time,
            )
        },
        after.committed == before.committed,
        before.pending is None,
        after.pending is None,
        after.refusals == before.refusals,
{
    let tables = before.visible();
    let ids = list@.map_values(|entry: (WorkspaceId, Vec<PathBuf>)| entry.0.0);
    if 0 <= i < list@.len() {
        let shown = path_texts(list@[i].1@);
        assert(ids[i] == list@[i].0.0);
        assert(tables.roots_of(ids[i]).contains(root) <==> tables.roots.contains((ids[i], root)));
        assert(shown.to_set().contains(root) <==> shown.contains(root));
    }
    if 0 <= i < j < list@.len() {
        assert(ids[j] == list@[j].0.0);
    }
    if ids.contains(other) {
        let k = choose|k: int| 0 <= k < ids.len() && ids[k] == other;
        assert(list@[k].0.0 == other);
    }
}

/// The null database gives the default workspace and stays as it is.
pub proof fn null_database_makes_nothing(
    roots: Seq<Seq<char>>,
    id: WorkspaceId,
    after: Option<Database>,
)
    requires
        find_outcome(None, roots, id, after) || creation_outcome(None, id, after),
    ensures
        id == WorkspaceId(0),
        after is None,
{
}

/// A database that was just created has no rows, and no transaction is open.
pub proof fn created_database_is_empty(db: Database, id: i64, root: Seq<char>)
    requires
        db.same_rows(created()),
    ensures
        !db.visible().workspaces.contains_key(id),
        !db.visible().roots.contains((id, root)),
        db.visible().last_id == 0,
        db.pending is None,
{
}

/// A list of paths has as many texts as paths, each in its place, and so has a list
/// of strings.
pub proof fn every_path_has_its_text(paths: Seq<PathBuf>, strings: Seq<String>, i: int)
    ensures
        path_texts(paths).len() == paths.len(),
        0 <= i < paths.len() ==> path_texts(paths)[i] == path_text(paths[i]),
        texts(strings).len() == strings.len(),
        0 <= i < strings.len() ==> texts(strings)[i] == strings[i]@,
{
}

/// The texts that are sent to SQLite, in full.
pub proof fn statements_read_as_follows()
    ensures
        WORKSPACE_M_1@ == "
CREATE TABLE workspaces(
    workspace_id INTEGER PRIMARY KEY AUTOINCREMENT,
    timestamp TEXT DEFAULT CURRENT_TIMESTAMP
) STRICT;

CREATE TABLE worktree_roots(
    worktree_root TEXT NOT NULL,
    workspace_id INTEGER NOT NULL,
    FOREIGN KEY(workspace_id) REFERENCES workspaces(workspace_id) ON DELETE CASCADE
    PRIMARY KEY(worktree_root, workspace_id)
) STRICT;
"@,
        BEGIN@ == "BEGIN DEFERRED"@,
        COMMIT@ == "COMMIT"@,
        ROLLBACK@ == "ROLLBACK"@,
        NEW_WORKSPACE@ == "INSERT INTO workspaces DEFAULT VALUES;"@,
        DELETE_WORKSPACE@ == "DELETE FROM workspaces WHERE workspace_id = ?"@,
        DELETE_ROOTS@ == "DELETE FROM worktree_roots WHERE workspace_id = ?"@,
        INSERT_ROOT@ == "INSERT INTO worktree_roots(workspace_id, worktree_root) VALUES (?, ?)"@,
        TOUCH_WORKSPACE@ == "UPDATE workspaces SET timestamp = CURRENT_TIMESTAMP WHERE workspace_id = ?"@,
        RECENT_WORKSPACES@ == "SELECT workspace_id FROM workspaces ORDER BY timestamp DESC LIMIT ?"@,
        WORKSPACE_ROOTS@ == "SELECT worktree_root FROM worktree_roots WHERE workspace_id = ?"@,
        LOOKUP_HEAD@ == "
SELECT workspace_id
FROM (SELECT count(workspace_id) as num_matching, workspace_id FROM worktree_roots
      WHERE worktree_root in "@,
        LOOKUP_OUTSIDE@ == " AND workspace_id NOT IN
        (SELECT wt1.workspace_id FROM worktree_roots as wt1
         JOIN worktree_roots as wt2
         ON wt1.workspace_id = wt2.workspace_id
         WHERE wt1.worktree_root NOT in "@,
        LOOKUP_OVERLAP@ == " AND wt2.worktree_root in "@,
        LOOKUP_TAIL@ == ")
      GROUP BY workspace_id)
WHERE num_matching = ?"@,
{
}

} // verus!
