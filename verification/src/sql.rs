//! The SQL that is sent to the database, and what each text means for the rows
//! of the two tables.
//!
//! The texts are constants, but for the lookup, which has one parameter per
//! root and is put together in [`crate::lookup`]. The meanings are what the
//! functions of [`crate::sqlite`] promise of a database that runs the texts. They
//! quote the texts, so that no text can change without its meaning.

use vstd::prelude::*;
use crate::model::{Database, Stamp, Statement, Tables};

verus! {

/// Creates the two tables.
pub const WORKSPACE_M_1: &'static str = "
CREATE TABLE workspaces(
    workspace_id INTEGER PRIMARY KEY AUTOINCREMENT,
    timestamp TEXT DEFAULT CURRENT_TIMESTAMP
) STRICT;

CREATE TABLE worktree_roots(
    worktree_root TEXT NOT NULL,
    workspace_id INTEGER NOT NULL,
    FOREIGN KEY(workspace_id) REFERENCES workspaces(workspace_id) ON DELETE CASCADE
    PRIMARY KEY(worktree_root, workspace_id)
) STRICT;
";

/// Opens a transaction.
pub const BEGIN: &'static str = "BEGIN DEFERRED";

/// Makes the rows of the open transaction permanent.
pub const COMMIT: &'static str = "COMMIT";

/// Undoes the open transaction.
pub const ROLLBACK: &'static str = "ROLLBACK";

/// Adds a workspace under the next id, stamped with the current time.
pub const NEW_WORKSPACE: &'static str = "INSERT INTO workspaces DEFAULT VALUES;";

/// Removes a workspace; its roots go with it.
pub const DELETE_WORKSPACE: &'static str = "DELETE FROM workspaces WHERE workspace_id = ?";

/// Removes the roots of a workspace.
pub const DELETE_ROOTS: &'static str = "DELETE FROM worktree_roots WHERE workspace_id = ?";

/// Adds a root to a workspace.
pub const INSERT_ROOT: &'static str =
    "INSERT INTO worktree_roots(workspace_id, worktree_root) VALUES (?, ?)";

/// Stamps a workspace with the current time.
pub const TOUCH_WORKSPACE: &'static str =
    "UPDATE workspaces SET timestamp = CURRENT_TIMESTAMP WHERE workspace_id = ?";

/// The ids of the workspaces, the last written first.
pub const RECENT_WORKSPACES: &'static str =
    "SELECT workspace_id FROM workspaces ORDER BY timestamp DESC LIMIT ?";

/// The roots of a workspace.
pub const WORKSPACE_ROOTS: &'static str =
    "SELECT worktree_root FROM worktree_roots WHERE workspace_id = ?";

/// The lookup, up to the first list of roots.
pub const LOOKUP_HEAD: &'static str = "
SELECT workspace_id
FROM (SELECT count(workspace_id) as num_matching, workspace_id FROM worktree_roots
      WHERE worktree_root in ";

/// The lookup, between the first and the second list of roots.
pub const LOOKUP_OUTSIDE: &'static str = " AND workspace_id NOT IN
        (SELECT wt1.workspace_id FROM worktree_roots as wt1
         JOIN worktree_roots as wt2
         ON wt1.workspace_id = wt2.workspace_id
         WHERE wt1.worktree_root NOT in ";

/// The lookup, between the second and the third list of roots.
pub const LOOKUP_OVERLAP: &'static str = " AND wt2.worktree_root in ";

/// The lookup, from the third list of roots on.
pub const LOOKUP_TAIL: &'static str = ")
      GROUP BY workspace_id)
WHERE num_matching = ?";

/// The decimal digit of `d`.
pub open spec fn digit(d: nat) -> char {
    if d == 0 { '0' }
    else if d == 1 { '1' }
    else if d == 2 { '2' }
    else if d == 3 { '3' }
    else if d == 4 { '4' }
    else if d == 5 { '5' }
    else if d == 6 { '6' }
    else if d == 7 { '7' }
    else if d == 8 { '8' }
    else { '9' }
}

/// `n` in decimal notation.
pub open spec fn decimal(n: nat) -> Seq<char>
    decreases n,
{
    if n < 10 {
        seq![digit(n)]
    } else {
        decimal(n / 10).push(digit(n % 10))
    }
}

/// The placeholders `?1, ?2, ..` up to `?n`.
pub open spec fn placeholders(n: nat) -> Seq<char>
    decreases n,
{
    if n == 0 {
        seq![]
    } else if n == 1 {
        seq!['?'] + decimal(1)
    } else {
        placeholders((n - 1) as nat) + seq![',', ' ', '?'] + decimal(n)
    }
}

/// The placeholders in brackets: a list of `n` roots.
pub open spec fn root_list(n: nat) -> Seq<char> {
    seq!['('] + placeholders(n) + seq![')']
}

/// The lookup of a workspace by `n` roots.
pub open spec fn lookup_sql(n: nat) -> Seq<char> {
    LOOKUP_HEAD@ + root_list(n) + LOOKUP_OUTSIDE@ + root_list(n) + LOOKUP_OVERLAP@ + root_list(n)
        + LOOKUP_TAIL@
}

/// The value of a parameter.
#[verifier::ext_equal]
pub enum SqlValue {
    Integer(i64),
    Text(Seq<char>),
}

/// A value to bind to a parameter.
pub enum Param<'a> {
    Integer(i64),
    Text(&'a str),
}

impl<'a> View for Param<'a> {
    type V = SqlValue;

    open spec fn view(&self) -> SqlValue {
        match *self {
            Param::Integer(i) => SqlValue::Integer(i),
            Param::Text(t) => SqlValue::Text(t@),
        }
    }
}

/// The values of a list of parameters.
pub open spec fn values(params: Seq<Param>) -> Seq<SqlValue> {
    params.map_values(|p: Param| p@)
}

/// The text that creates the two tables.
pub open spec fn schema_text() -> Seq<char> {
    "
CREATE TABLE workspaces(
    workspace_id INTEGER PRIMARY KEY AUTOINCREMENT,
    timestamp TEXT DEFAULT CURRENT_TIMESTAMP
) STRICT;

CREATE TABLE worktree_roots(
    worktree_root TEXT NOT NULL,
    workspace_id INTEGER NOT NULL,
    FOREIGN KEY(workspace_id) REFERENCES workspaces(workspace_id) ON DELETE CASCADE
    PRIMARY KEY(worktree_root, workspace_id)
) STRICT;
"@
}

/// What running the batch `sql` does to a database. A transaction is owed where
/// none is open, and its commit where one is.
pub open spec fn batch_effect(sql: Seq<char>, before: Database, ok: bool, after: Database) -> bool {
    &&& sql == schema_text() && before.same_rows(blank()) && ok ==> after.same_rows(created())
    &&& sql == "BEGIN DEFERRED"@ && before.ready ==> if ok {
        &&& before.pending is None
        &&& after.same_rows(
            Database { pending: Some(before.committed), stuck: false, ..before },
        )
        &&& after.refusals == before.refusals
    } else {
        before.failed(Statement { sql, params: seq![] }, before.pending is None, after)
    }
    &&& sql == "COMMIT"@ && before.ready ==> if ok {
        &&& before.pending matches Some(tables)
        &&& after.same_rows(Database { committed: tables, pending: None, ..before })
        &&& after.refusals == before.refusals
    } else {
        before.failed(Statement { sql, params: seq![] }, before.pending is Some, after)
    }
    &&& sql == "ROLLBACK"@ && before.ready ==> if ok {
        &&& before.pending is Some
        &&& after.same_rows(before.rolled_back())
        &&& after.refusals == before.refusals
    } else {
        &&& before.after_abandon(after)
        &&& after.refusals == before.refusals
    }
}

/// A database with nothing in it.
pub open spec fn blank() -> Database {
    Database {
        ready: false,
        committed: Tables::empty(),
        pending: None,
        stuck: false,
        last_rowid: 0,
        refusals: seq![],
    }
}

/// A database with the two tables, both empty.
pub open spec fn created() -> Database {
    Database { ready: true, ..blank() }
}

/// Whether `sql` is one of the texts that change rows, with the parameters that
/// it takes.
pub open spec fn changes_rows(sql: Seq<char>, params: Seq<SqlValue>) -> bool {
    ||| sql == "INSERT INTO workspaces DEFAULT VALUES;"@ && params.len() == 0
    ||| {
        &&& {
            ||| sql == "DELETE FROM workspaces WHERE workspace_id = ?"@
            ||| sql == "DELETE FROM worktree_roots WHERE workspace_id = ?"@
            ||| sql == "UPDATE workspaces SET timestamp = CURRENT_TIMESTAMP WHERE workspace_id = ?"@
        }
        &&& params.len() == 1
        &&& params[0] is Integer
    }
    ||| {
        &&& sql == "INSERT INTO worktree_roots(workspace_id, worktree_root) VALUES (?, ?)"@
        &&& params.len() == 2
        &&& params[0] is Integer
        &&& params[1] is Text
    }
}

/// Whether the keys forbid a statement: it adds a root to a workspace that is not
/// there, or one that the workspace already has.
pub open spec fn breaks_keys(sql: Seq<char>, params: Seq<SqlValue>, tables: Tables) -> bool {
    &&& sql == "INSERT INTO worktree_roots(workspace_id, worktree_root) VALUES (?, ?)"@
    &&& params.len() == 2
    &&& (params[0], params[1]) matches (SqlValue::Integer(id), SqlValue::Text(root))
    &&& !tables.workspaces.contains_key(id) || tables.roots.contains((id, root))
}

/// How a statement that succeeds takes the rows `before` to the rows `after`;
/// `rowid` is the last row id then. The time that a row is stamped with is left
/// open.
pub open spec fn statement_effect(
    sql: Seq<char>,
    params: Seq<SqlValue>,
    before: Tables,
    after: Tables,
    rowid: i64,
) -> bool {
    &&& !breaks_keys(sql, params, before)
    &&& sql == "INSERT INTO workspaces DEFAULT VALUES;"@ ==> {
        &&& rowid == before.last_id + 1
        &&& after == before.with_new_workspace(after.workspaces[rowid].time)
    }
    &&& sql == "DELETE FROM workspaces WHERE workspace_id = ?"@ ==> {
        params[0] matches SqlValue::Integer(id) ==> after == before.without_workspace(id)
    }
    &&& sql == "DELETE FROM worktree_roots WHERE workspace_id = ?"@ ==> {
        params[0] matches SqlValue::Integer(id) ==> after == before.without_roots(id)
    }
    &&& sql == "INSERT INTO worktree_roots(workspace_id, worktree_root) VALUES (?, ?)"@ ==> {
        (params[0], params[1]) matches (SqlValue::Integer(id), SqlValue::Text(root)) ==> after
            == before.with_root(id, root)
    }
    &&& sql == "UPDATE workspaces SET timestamp = CURRENT_TIMESTAMP WHERE workspace_id = ?"@ ==> {
        params[0] matches SqlValue::Integer(id) ==> after == before.stamped(
            id,
            after.workspaces[id].time,
        )
    }
}

/// The rows of workspace `id` whose root is one of `roots`.
pub open spec fn rows_within(tables: Tables, id: i64, roots: Set<Seq<char>>) -> Set<
    (i64, Seq<char>),
> {
    tables.roots.filter(|row: (i64, Seq<char>)| row.0 == id && roots.contains(row.1))
}

/// Whether the self-join finds `id`: a root of it that is not one of `kept` beside
/// a root of it that is one of `overlap`.
pub open spec fn straddles(
    tables: Tables,
    id: i64,
    kept: Set<Seq<char>>,
    overlap: Set<Seq<char>>,
) -> bool {
    exists|outside: Seq<char>, inside: Seq<char>|
        {
            &&& #[trigger] tables.roots.contains((id, outside))
            &&& !kept.contains(outside)
            &&& #[trigger] tables.roots.contains((id, inside))
            &&& overlap.contains(inside)
        }
}

/// Whether the lookup with the three lists `listed`, `kept` and `overlap` and the
/// count `n` selects `id`: among the rows whose root is one of `listed` there is a
/// group for `id`, the self-join does not find it, and the group has `n` rows.
pub open spec fn lookup_selects(
    tables: Tables,
    id: i64,
    listed: Set<Seq<char>>,
    kept: Set<Seq<char>>,
    overlap: Set<Seq<char>>,
    n: int,
) -> bool {
    &&& exists|root: Seq<char>| #[trigger]
        tables.roots.contains((id, root)) && listed.contains(root)
    &&& !straddles(tables, id, kept, overlap)
    &&& rows_within(tables, id, listed).len() == n
}

/// The number that a text of decimal digits denotes.
pub open spec fn number(text: Seq<char>) -> int
    decreases text.len(),
{
    if text.len() == 0 {
        0
    } else {
        10 * number(text.drop_last()) + (text.last() as int - '0' as int)
    }
}

/// Whether `text` is the number `k` in decimal digits.
pub open spec fn reads_number(text: Seq<char>, k: int) -> bool {
    &&& text.len() > 0
    &&& forall|i: int| 0 <= i < text.len() ==> '0' <= #[trigger] text[i] <= '9'
    &&& number(text) == k
}

/// Whether `text` names the parameters with the numbers `numbers`, each with a
/// question mark before it, and a comma and a space between any two.
pub open spec fn reads_items(text: Seq<char>, numbers: Seq<int>) -> bool
    decreases numbers.len(),
{
    if numbers.len() == 0 {
        text.len() == 0
    } else if numbers.len() == 1 {
        text.len() > 0 && text[0] == '?' && reads_number(text.skip(1), numbers[0])
    } else {
        exists|cut: int|
            {
                &&& 0 <= cut <= text.len() - 3
                &&& text[cut] == ','
                &&& text[cut + 1] == ' '
                &&& text[cut + 2] == '?'
                &&& reads_items(#[trigger] text.take(cut), numbers.drop_last())
                &&& reads_number(text.skip(cut + 3), numbers.last())
            }
    }
}

/// Whether `text` is a list in brackets of the parameters with the numbers
/// `numbers`.
pub open spec fn reads_list(text: Seq<char>, numbers: Seq<int>) -> bool {
    &&& text.len() >= 2
    &&& text[0] == '('
    &&& text.last() == ')'
    &&& reads_items(text.subrange(1, text.len() - 1), numbers)
}

/// Whether `sql` with `params` is the lookup for `roots`: each root stands in its
/// place, and their number behind them.
pub open spec fn is_lookup(
    sql: Seq<char>,
    params: Seq<SqlValue>,
    roots: Seq<Seq<char>>,
) -> bool {
    &&& sql == lookup_sql(roots.len())
    &&& params.len() == roots.len() + 1
    &&& forall|k: int| 0 <= k < roots.len() ==> #[trigger] params[k] == SqlValue::Text(roots[k])
    &&& params[roots.len() as int] == SqlValue::Integer(roots.len() as i64)
}

/// A lookup in which `first`, `second` and `third` stand in the places of the
/// three lists of roots.
pub open spec fn lookup_around(
    first: Seq<char>,
    second: Seq<char>,
    third: Seq<char>,
) -> Seq<char> {
    "
SELECT workspace_id
FROM (SELECT count(workspace_id) as num_matching, workspace_id FROM worktree_roots
      WHERE worktree_root in "@ + first + " AND workspace_id NOT IN
        (SELECT wt1.workspace_id FROM worktree_roots as wt1
         JOIN worktree_roots as wt2
         ON wt1.workspace_id = wt2.workspace_id
         WHERE wt1.worktree_root NOT in "@ + second + " AND wt2.worktree_root in "@ + third
        + ")
      GROUP BY workspace_id)
WHERE num_matching = ?"@
}

/// Whether `sql` is a lookup that has in the places of its three lists of roots
/// the parameters with the numbers `listed`, `kept` and `overlap`.
pub open spec fn reads_lookup(
    sql: Seq<char>,
    listed: Seq<int>,
    kept: Seq<int>,
    overlap: Seq<int>,
) -> bool {
    exists|first: Seq<char>, second: Seq<char>, third: Seq<char>|
        {
            &&& sql == #[trigger] lookup_around(first, second, third)
            &&& reads_list(first, listed)
            &&& reads_list(second, kept)
            &&& reads_list(third, overlap)
        }
}

/// Whether `params` are all the parameters of a lookup with the lists `listed`,
/// `kept` and `overlap`: a text for each number up to the largest, and an integer
/// for the count, which has the number after that.
pub open spec fn fits_lookup(
    params: Seq<SqlValue>,
    listed: Seq<int>,
    kept: Seq<int>,
    overlap: Seq<int>,
) -> bool {
    let numbers = listed + kept + overlap;
    &&& params.len() > 0
    &&& params.last() is Integer
    &&& forall|k: int| 0 <= k < params.len() - 1 ==> #[trigger] params[k] is Text
    &&& forall|i: int| 0 <= i < numbers.len() ==> 1 <= #[trigger] numbers[i] < params.len()
    &&& params.len() > 1 ==> numbers.contains(params.len() - 1)
}

/// The texts of the parameters with the numbers `numbers`.
pub open spec fn texts_at(params: Seq<SqlValue>, numbers: Seq<int>) -> Set<Seq<char>> {
    Set::new(
        |text: Seq<char>|
            exists|i: int|
                0 <= i < numbers.len() && params[#[trigger] numbers[i] - 1] == SqlValue::Text(text),
    )
}

/// Whether `first` is what the first row of the lookup with the three lists
/// `listed`, `kept` and `overlap` and the count `n` holds: one of the ids that it
/// selects, or `None` if it selects none.
pub open spec fn lookup_answer(
    tables: Tables,
    listed: Set<Seq<char>>,
    kept: Set<Seq<char>>,
    overlap: Set<Seq<char>>,
    n: int,
    first: Option<i64>,
) -> bool {
    match first {
        Some(id) => lookup_selects(tables, id, listed, kept, overlap, n),
        None => forall|id: i64|
            !(#[trigger] lookup_selects(tables, id, listed, kept, overlap, n)),
    }
}

/// The numbers from one up to `n`.
pub open spec fn up_to(n: nat) -> Seq<int> {
    Seq::new(n, |k: int| k + 1)
}

/// The opening of a transaction.
pub open spec fn begin() -> Statement {
    Statement { sql: BEGIN@, params: seq![] }
}

/// The commit of a transaction.
pub open spec fn commit() -> Statement {
    Statement { sql: COMMIT@, params: seq![] }
}

/// The insertion of a workspace.
pub open spec fn new_workspace() -> Statement {
    Statement { sql: NEW_WORKSPACE@, params: seq![] }
}

/// A statement on workspace `id`.
pub open spec fn statement_for(sql: Seq<char>, id: i64) -> Statement {
    Statement { sql, params: seq![SqlValue::Integer(id)] }
}

/// The insertion of a root of workspace `id`.
pub open spec fn insert_root(id: i64, root: Seq<char>) -> Statement {
    Statement { sql: INSERT_ROOT@, params: seq![SqlValue::Integer(id), SqlValue::Text(root)] }
}

/// The lookup for `roots`: each root stands in its place, and their number behind
/// them.
pub open spec fn lookup(roots: Seq<Seq<char>>) -> Statement {
    Statement {
        sql: lookup_sql(roots.len()),
        params: Seq::new(
            roots.len() + 1,
            |k: int|
                if k < roots.len() {
                    SqlValue::Text(roots[k])
                } else {
                    SqlValue::Integer(roots.len() as i64)
                },
        ),
    }
}

/// Whether `a` comes before `b` in the order of texts, or is `b`.
pub open spec fn text_le(a: Seq<char>, b: Seq<char>) -> bool
    decreases a.len(),
{
    if a.len() == 0 {
        true
    } else if b.len() == 0 {
        false
    } else if a[0] != b[0] {
        a[0] < b[0]
    } else {
        text_le(a.skip(1), b.skip(1))
    }
}

/// Whether `ids` lists up to `limit` of the workspaces, each once, the last
/// written first, and leaves out none that was written later than one of them.
pub open spec fn most_recent(workspaces: Map<i64, Stamp>, ids: Seq<i64>, limit: int) -> bool {
    &&& ids.no_duplicates()
    &&& ids.len() == if limit <= workspaces.dom().len() { limit } else { workspaces.dom().len() as int }
    &&& forall|i: int| 0 <= i < ids.len() ==> workspaces.contains_key(#[trigger] ids[i])
    &&& forall|i: int, j: int|
        0 <= i <= j < ids.len() ==> text_le(
            workspaces[#[trigger] ids[j]].time,
            workspaces[#[trigger] ids[i]].time,
        )
    &&& forall|w: i64, i: int|
        #[trigger] workspaces.contains_key(w) && !ids.contains(w) && 0 <= i < ids.len()
            ==> text_le(workspaces[w].time, workspaces[#[trigger] ids[i]].time)
}

/// Whether `texts` lists `set`, each text once.
pub open spec fn enumerates(texts: Seq<Seq<char>>, set: Set<Seq<char>>) -> bool {
    texts.no_duplicates() && texts.to_set() =~= set
}

} // verus!
