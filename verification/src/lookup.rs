//! Finding the workspace that a list of roots names.

use vstd::prelude::*;
use vstd::string::*;
use rusqlite::Connection;
use crate::laws::{lookup_has_the_list_in_three_places, lookup_is_exact};
use crate::model::{Database, Statement};
use crate::sql::{
    LOOKUP_HEAD, LOOKUP_OUTSIDE, LOOKUP_OVERLAP, LOOKUP_TAIL, Param, SqlValue, decimal, digit,
    fits_lookup, is_lookup, lookup, lookup_answer, lookup_selects, lookup_sql, placeholders, root_list,
    texts_at, up_to, values,
};
use crate::sqlite::{database, query_row};
use crate::workspace::{DbError, WorkspaceId, texts};

verus! {

/// The digit `d` as a text.
fn digit_text(d: usize) -> (r: &'static str)
    requires
        d < 10,
    ensures
        r@ == seq![digit(d as nat)],
{
    proof {
        reveal_strlit("0");
        reveal_strlit("1");
        reveal_strlit("2");
        reveal_strlit("3");
        reveal_strlit("4");
        reveal_strlit("5");
        reveal_strlit("6");
        reveal_strlit("7");
        reveal_strlit("8");
        reveal_strlit("9");
    }
    match d {
        0 => "0",
        1 => "1",
        2 => "2",
        3 => "3",
        4 => "4",
        5 => "5",
        6 => "6",
        7 => "7",
        8 => "8",
        _ => "9",
    }
}

/// Appends `n` in decimal notation.
fn append_decimal(text: &mut String, n: usize)
    ensures
        final(text)@ == old(text)@ + decimal(n as nat),
    decreases n,
{
    if n >= 10 {
        append_decimal(text, n / 10);
    }
    text.append(digit_text(n % 10));
    assert(text@ =~= old(text)@ + decimal(n as nat));
}

/// The list of `n` placeholders, numbered from one.
pub fn root_list_text(n: usize) -> (r: String)
    ensures
        r@ == root_list(n as nat),
{
    proof {
        reveal_strlit("(");
        reveal_strlit("?");
        reveal_strlit(", ");
        reveal_strlit(")");
    }
    let mut text = String::from_str("(");
    for i in 0..n
        invariant
            "?"@ == seq!['?'],
            ", "@ == seq![',', ' '],
            text@ == seq!['('] + placeholders(i as nat) + if 0 < i < n {
                seq![',', ' ']
            } else {
                seq![]
            },
    {
        text.append("?");
        append_decimal(&mut text, i + 1);
        assert(text@ =~= seq!['('] + placeholders((i + 1) as nat));
        if i < n - 1 {
            text.append(", ");
        }
    }
    text.append(")");
    assert(text@ =~= root_list(n as nat));
    text
}

/// The lookup of a workspace by `n` roots.
pub fn lookup_text(n: usize) -> (r: String)
    ensures
        r@ == lookup_sql(n as nat),
{
    let list = root_list_text(n);
    let mut text = String::from_str(LOOKUP_HEAD);
    text.append(list.as_str());
    text.append(LOOKUP_OUTSIDE);
    text.append(list.as_str());
    text.append(LOOKUP_OVERLAP);
    text.append(list.as_str());
    text.append(LOOKUP_TAIL);
    text
}

/// A list of `n` placeholders is at least `n` characters long.
proof fn lemma_placeholders_len(n: nat)
    ensures
        placeholders(n).len() >= n,
    decreases n,
{
    if n > 1 {
        lemma_placeholders_len((n - 1) as nat);
    }
}

/// The parameters of the lookup for `roots` that stand in its lists hold `roots`.
proof fn lemma_texts_at(roots: Seq<Seq<char>>)
    ensures
        texts_at(lookup(roots).params, up_to(roots.len())) =~= roots.to_set(),
{
    let params = lookup(roots).params;
    let list = up_to(roots.len());
    assert forall|root: Seq<char>| roots.to_set().contains(root) implies texts_at(
        params,
        list,
    ).contains(root) by {
        let k = choose|k: int| 0 <= k < roots.len() && roots[k] == root;
        assert(params[list[k] - 1] == SqlValue::Text(root));
    }
}

/// What looking up the workspace with the roots `roots` gives and leaves.
///
/// A lookup that succeeds changes nothing. One that fails has been refused by
/// SQLite.
pub open spec fn lookup_outcome(
    before: Database,
    roots: Seq<Seq<char>>,
    found: Result<Option<WorkspaceId>, DbError>,
    after: Database,
) -> bool {
    match found {
        Ok(Some(id)) => before.visible().registered(id.0, roots) && after == before,
        Ok(None) => {
            &&& forall|id: i64| !(#[trigger] before.visible().registered(id, roots))
            &&& after == before
        },
        Err(error) => error is Sqlite && before.refused(lookup(roots), after),
    }
}

/// Finds the workspace whose roots are exactly `worktree_roots`.
///
/// The order of the roots does not matter. A list that is empty, or that has a
/// root twice, names no workspace, and one for which the text of the lookup gets
/// too long is refused.
pub fn get_workspace_id(worktree_roots: &[String], connection: &mut Connection) -> (r: Result<
    Option<WorkspaceId>,
    DbError,
>)
    requires
        database(*old(connection)).ready,
        database(*old(connection)).visible().roots.finite(),
    ensures
        lookup_outcome(
            database(*old(connection)),
            texts(worktree_roots@),
            r,
            database(*final(connection)),
        ),
        lookup_sql(worktree_roots.len() as nat).len() >= i32::MAX ==> r is Err,
{
    let ghost tables = database(*connection).visible();
    let ghost roots = texts(worktree_roots@);
    let n: usize = worktree_roots.len();
    let query = lookup_text(n);
    let mut params: Vec<Param> = Vec::new();
    for i in 0..n
        invariant
            n == worktree_roots.len(),
            roots == texts(worktree_roots@),
            params@.len() == i,
            forall|k: int| 0 <= k < i ==> (#[trigger] params@[k])@ == SqlValue::Text(roots[k]),
    {
        params.push(Param::Text(worktree_roots[i].as_str()));
    }
    params.push(Param::Integer(n as i64));
    let ghost list = up_to(n as nat);
    assert(is_lookup(query@, values(params@), roots));
    assert(values(params@) =~= lookup(roots).params);
    assert(lookup(roots) == (Statement { sql: query@, params: values(params@) }));
    proof {
        lookup_has_the_list_in_three_places(n as nat);
        if n > 0 {
            assert((list + list + list)[n - 1] == n);
        }
        assert(fits_lookup(values(params@), list, list, list));
    }
    match query_row(connection, query.as_str(), params.as_slice()) {
        Ok(first) => {
            proof {
                let set = roots.to_set();
                lemma_placeholders_len(n as nat);
                assert(query@.len() >= n);
                assert(values(params@).last() == SqlValue::Integer(n as i64));
                lemma_texts_at(roots);
                assert(texts_at(values(params@), list) == set);
                let count = values(params@).last()->Integer_0 as int;
                assert(count == roots.len());
                assert(lookup_answer(tables, set, set, set, roots.len() as int, first));
                assert forall|id: i64|
                    #![trigger tables.registered(id, roots)]
                    lookup_selects(tables, id, set, set, set, roots.len() as int)
                        <==> tables.registered(id, roots) by {
                    lookup_is_exact(tables, id, roots);
                }
            }
            match first {
                Some(id) => Ok(Some(WorkspaceId(id))),
                None => Ok(None),
            }
        },
        Err(error) => Err(DbError::Sqlite(error)),
    }
}

} // verus!
