//! What holds of the database as a whole.

use vstd::prelude::*;
use vstd::set_lib::{lemma_len_subset, lemma_map_size, lemma_set_subset_finite, lemma_subset_equality};
use vstd::seq_lib::seq_to_set_is_finite;
use std::path::PathBuf;
use crate::db::{creation_outcome, find_outcome, list_outcome, shows_recent};
use crate::model::{Database, Stamp, Statement, Tables};
use crate::path::path_texts;
use crate::sql::{
    decimal, enumerates, lookup_around, lookup_selects, lookup_sql, most_recent, number,
    placeholders, reads_items, reads_lookup, reads_number, root_list, rows_within, straddles,
    text_le, up_to,
};
use crate::store::update_outcome;
use crate::workspace::{DbError, WorkspaceId};

verus! {

/// The roots of a workspace are finitely many, and its rows count them.
proof fn lemma_roots_of_len(tables: Tables, id: i64, roots: Set<Seq<char>>)
    requires
        tables.roots.finite(),
        tables.roots_of(id).subset_of(roots),
    ensures
        tables.roots_of(id).finite(),
        tables.roots_of(id).len() == rows_within(tables, id, roots).len(),
{
    let rows = rows_within(tables, id, roots);
    let root_of = |row: (i64, Seq<char>)| row.1;
    lemma_set_subset_finite(tables.roots, rows);
    assert(rows.map(root_of) =~= tables.roots_of(id)) by {
        assert forall|root: Seq<char>| tables.roots_of(id).contains(root) implies rows.map(
            root_of,
        ).contains(root) by {
            assert(rows.contains((id, root)) && root_of((id, root)) == root);
        }
    }
    rows.lemma_map_finite(root_of);
    lemma_map_size(rows, tables.roots_of(id), root_of);
}

/// A number in decimal notation denotes that number.
proof fn lemma_decimal_reads(n: nat)
    ensures
        reads_number(decimal(n), n as int),
    decreases n,
{
    let text = decimal(n);
    if n >= 10 {
        lemma_decimal_reads(n / 10);
        assert(text.drop_last() =~= decimal(n / 10));
    } else {
        assert(text.drop_last() =~= seq![]);
        assert(number(text.drop_last()) == 0);
    }
}

/// The placeholders name the parameters from one up to `n`.
proof fn lemma_placeholders_read(n: nat)
    ensures
        reads_items(placeholders(n), up_to(n)),
    decreases n,
{
    let text = placeholders(n);
    if n > 0 {
        lemma_decimal_reads(n);
    }
    if n == 1 {
        assert(text.skip(1) =~= decimal(1));
    } else if n > 1 {
        let front = placeholders((n - 1) as nat);
        let cut = front.len() as int;
        lemma_placeholders_read((n - 1) as nat);
        assert(up_to(n).drop_last() =~= up_to((n - 1) as nat));
        assert(text.take(cut) =~= front);
        assert(text.skip(cut + 3) =~= decimal(n));
    }
}

/// The text of the lookup for `n` roots, read as SQL, has the parameters from one
/// up to `n` in each of its three lists of roots.
pub proof fn lookup_has_the_list_in_three_places(n: nat)
    ensures
        reads_lookup(lookup_sql(n), up_to(n), up_to(n), up_to(n)),
{
    let list = root_list(n);
    lemma_placeholders_read(n);
    assert(list.subrange(1, list.len() - 1) =~= placeholders(n));
    assert(lookup_sql(n) == lookup_around(list, list, list));
}

/// The lookup for a list of roots, which has this list in its three places,
/// selects a workspace if and only if the list names, each once, exactly the roots
/// of that workspace.
pub proof fn lookup_is_exact(tables: Tables, id: i64, roots: Seq<Seq<char>>)
    requires
        tables.roots.finite(),
    ensures
        lookup_selects(
            tables,
            id,
            roots.to_set(),
            roots.to_set(),
            roots.to_set(),
            roots.len() as int,
        ) <==> tables.registered(id, roots),
{
    let set = roots.to_set();
    seq_to_set_is_finite(roots);
    roots.lemma_cardinality_of_set();
    if lookup_selects(tables, id, set, set, set, roots.len() as int) {
        let inside = choose|root: Seq<char>| #[trigger]
            tables.roots.contains((id, root)) && set.contains(root);
        assert forall|root: Seq<char>| tables.roots_of(id).contains(root) implies set.contains(
            root,
        ) by {
            assert(tables.roots.contains((id, root)));
            assert(tables.roots.contains((id, inside)));
        }
        lemma_roots_of_len(tables, id, set);
        lemma_len_subset(tables.roots_of(id), set);
        lemma_subset_equality(tables.roots_of(id), set);
        roots.lemma_no_dup_set_cardinality();
        assert(roots.contains(inside));
    }
    if tables.registered(id, roots) {
        assert(tables.roots_of(id) == set);
        lemma_roots_of_len(tables, id, set);
        roots.unique_seq_to_set();
        assert(set.contains(roots[0]));
        assert(tables.roots.contains((id, roots[0])));
        assert(!straddles(tables, id, set, set)) by {
            assert forall|outside: Seq<char>| tables.roots.contains((id, outside)) implies set.contains(
                outside,
            ) by {
                assert(tables.roots_of(id).contains(outside));
            }
        }
    }
}

/// A list holds what a permutation of it holds.
proof fn lemma_permuted_contains(roots: Seq<Seq<char>>, permuted: Seq<Seq<char>>)
    requires
        roots.to_multiset() == permuted.to_multiset(),
    ensures
        roots.len() == permuted.len(),
        forall|root: Seq<char>| roots.contains(root) <==> permuted.contains(root),
        roots.to_set() =~= permuted.to_set(),
{
    roots.to_multiset_ensures();
    permuted.to_multiset_ensures();
    assert forall|root: Seq<char>| roots.contains(root) <==> permuted.contains(root) by {
        assert(roots.contains(root) <==> roots.to_multiset().count(root) > 0);
        assert(permuted.contains(root) <==> permuted.to_multiset().count(root) > 0);
    }
}

/// Two lists without repetitions that hold the same are permutations of each
/// other.
proof fn lemma_same_set_is_permuted(a: Seq<Seq<char>>, b: Seq<Seq<char>>)
    requires
        a.no_duplicates(),
        b.no_duplicates(),
        a.to_set() =~= b.to_set(),
    ensures
        a.to_multiset() == b.to_multiset(),
{
    a.to_multiset_ensures();
    b.to_multiset_ensures();
    a.lemma_multiset_has_no_duplicates();
    b.lemma_multiset_has_no_duplicates();
    assert forall|text: Seq<char>| a.to_multiset().count(text) == b.to_multiset().count(text) by {
        assert(a.contains(text) <==> a.to_set().contains(text));
        assert(b.contains(text) <==> b.to_set().contains(text));
        assert(a.contains(text) <==> a.to_multiset().count(text) > 0);
        assert(b.contains(text) <==> b.to_multiset().count(text) > 0);
        assert(a.to_multiset().contains(text) ==> a.to_multiset().count(text) == 1);
        assert(b.to_multiset().contains(text) ==> b.to_multiset().count(text) == 1);
    }
    assert(a.to_multiset() =~= b.to_multiset());
}

/// Two texts of which each comes before the other, or is it, are the same.
proof fn lemma_text_le_antisymmetric(a: Seq<char>, b: Seq<char>)
    requires
        text_le(a, b),
        text_le(b, a),
    ensures
        a == b,
    decreases a.len(),
{
    if a.len() > 0 && b.len() > 0 {
        lemma_text_le_antisymmetric(a.skip(1), b.skip(1));
        assert(a =~= seq![a[0]] + a.skip(1));
        assert(b =~= seq![b[0]] + b.skip(1));
    } else {
        assert(a =~= b);
    }
}

/// The order in which the roots are given does not matter to the lookup.
pub proof fn lookup_ignores_order(
    tables: Tables,
    id: i64,
    roots: Seq<Seq<char>>,
    permuted: Seq<Seq<char>>,
)
    requires
        roots.to_multiset() == permuted.to_multiset(),
    ensures
        tables.registered(id, roots) <==> tables.registered(id, permuted),
{
    lemma_permuted_contains(roots, permuted);
    if roots.no_duplicates() {
        roots.lemma_multiset_has_no_duplicates();
        permuted.lemma_multiset_has_no_duplicates_conv();
    }
    if permuted.no_duplicates() {
        permuted.lemma_multiset_has_no_duplicates();
        roots.lemma_multiset_has_no_duplicates_conv();
    }
}

/// A list of roots names at most one workspace.
pub proof fn at_most_one_workspace_matches(
    tables: Tables,
    a: i64,
    b: i64,
    roots: Seq<Seq<char>>,
)
    requires
        tables.valid(),
        tables.registered(a, roots),
        tables.registered(b, roots),
    ensures
        a == b,
{
    assert(tables.roots_of(a) =~= tables.roots_of(b));
    assert(roots.to_set().contains(roots[0]));
}

/// A list of roots that names a workspace names one that exists, and never the
/// default one.
pub proof fn matching_workspace_exists(tables: Tables, id: i64, roots: Seq<Seq<char>>)
    requires
        tables.sound(),
        tables.registered(id, roots),
    ensures
        tables.workspaces.contains_key(id),
        id != 0,
{
    assert(roots.to_set().contains(roots[0]));
    assert(tables.roots_of(id).contains(roots[0]));
    assert(tables.roots.contains((id, roots[0])));
}

/// No workspace is named by an empty list of roots, nor by one with a root twice.
pub proof fn unusable_lists_match_nothing(tables: Tables, id: i64, roots: Seq<Seq<char>>)
    requires
        roots.len() == 0 || !roots.no_duplicates(),
    ensures
        !tables.registered(id, roots),
{
}

/// A refusal more, or two, is a change.
proof fn lemma_refusal_shows(refusals: Seq<Statement>)
    ensures
        forall|s: Statement| #[trigger] refusals.push(s) != refusals,
        forall|s: Statement, t: Statement| #[trigger] refusals.push(s).push(t) != refusals,
{
    assert forall|s: Statement| #[trigger] refusals.push(s) != refusals by {
        assert(refusals.push(s).len() == refusals.len() + 1);
    }
    assert forall|s: Statement, t: Statement| #[trigger]
        refusals.push(s).push(t) != refusals by {
        assert(refusals.push(s).push(t).len() == refusals.len() + 2);
    }
}

/// After a workspace was given its roots, these roots name it and no other.
pub proof fn update_is_found(
    before: Database,
    id: i64,
    roots: Seq<Seq<char>>,
    after: Database,
    other: i64,
)
    requires
        before.valid(),
        update_outcome(before, id, roots, true, after),
        roots.len() > 0,
    ensures
        after.visible().registered(other, roots) <==> other == id,
{
    before.committed.lemma_updated(id, roots, after.committed.workspaces[id].time);
    assert(after.committed.roots_of(id) =~= roots.to_set());
    if after.committed.registered(other, roots) {
        at_most_one_workspace_matches(after.committed, other, id, roots);
    }
}

/// The workspace that was given its roots is the one found for them afterwards,
/// and none is made, unless SQLite refuses.
pub proof fn update_is_found_again(
    before: Database,
    id: i64,
    roots: Seq<Seq<char>>,
    between: Database,
    found: WorkspaceId,
    after: Database,
)
    requires
        before.valid(),
        update_outcome(before, id, roots, true, between),
        roots.len() > 0,
        find_outcome(Some(between), roots, found, Some(after)),
        after.refusals == between.refusals,
    ensures
        found == WorkspaceId(id),
        after == between,
{
    lemma_refusal_shows(between.refusals);
    update_is_found(before, id, roots, between, id);
    update_is_found(before, id, roots, between, found.0);
}

/// After a workspace was given its roots, a list with other roots that named it
/// before names no workspace.
pub proof fn update_forgets_former_roots(
    before: Database,
    id: i64,
    former: Seq<Seq<char>>,
    roots: Seq<Seq<char>>,
    after: Database,
    other: i64,
)
    requires
        before.valid(),
        update_outcome(before, id, roots, true, after),
        before.visible().registered(id, former),
        former.to_set() != roots.to_set(),
    ensures
        !after.visible().registered(other, former),
{
    let tables = before.committed;
    assert(former.to_set().contains(former[0]));
    if after.committed.registered(other, former) {
        assert(after.committed.roots_of(other).contains(former[0]));
        if other == id {
            assert(after.committed.roots_of(id) =~= roots.to_set());
        } else {
            assert(!tables.displaced(other, id, roots));
            assert(after.committed.roots_of(other) =~= tables.roots_of(other));
            at_most_one_workspace_matches(tables, other, id, former);
        }
    }
}

/// Giving a workspace its roots removes the workspace that had them before, and
/// its roots with it.
pub proof fn update_collects_the_former_owner(
    before: Database,
    id: i64,
    roots: Seq<Seq<char>>,
    after: Database,
    owner: i64,
)
    requires
        before.valid(),
        update_outcome(before, id, roots, true, after),
        before.visible().registered(owner, roots),
        owner != id,
    ensures
        !after.visible().workspaces.contains_key(owner),
        after.visible().roots_of(owner) =~= Set::empty(),
{
}

/// Giving a workspace its roots touches no workspace but that one and the one
/// that had the same roots before.
pub proof fn update_keeps_other_workspaces(
    before: Database,
    id: i64,
    roots: Seq<Seq<char>>,
    after: Database,
    other: i64,
)
    requires
        before.valid(),
        update_outcome(before, id, roots, true, after),
        other != id,
        !before.visible().registered(other, roots),
    ensures
        after.visible().roots_of(other) =~= before.visible().roots_of(other),
        after.visible().workspaces.contains_key(other)
            <==> before.visible().workspaces.contains_key(other),
        before.visible().workspaces.contains_key(other) ==> after.visible().workspaces[other]
            == before.visible().workspaces[other],
{
}

/// Giving a workspace the same roots once more, in any order, changes nothing but
/// its stamp.
pub proof fn update_is_idempotent(
    tables: Tables,
    id: i64,
    roots: Seq<Seq<char>>,
    permuted: Seq<Seq<char>>,
    first: Seq<char>,
    second: Seq<char>,
)
    requires
        roots.to_multiset() == permuted.to_multiset(),
    ensures
        tables.updated(id, roots, first).updated(id, permuted, second) =~= tables.updated(
            id,
            roots,
            first,
        ).stamped(id, second),
{
    let once = tables.updated(id, roots, first);
    lemma_permuted_contains(roots, permuted);
    assert forall|other: i64| !once.displaced(other, id, permuted) by {
        if once.displaced(other, id, permuted) {
            lookup_ignores_order(once, other, roots, permuted);
            assert(roots.to_set().contains(roots[0]));
            assert(once.roots_of(other).contains(roots[0]));
            assert(once.roots_of(other) =~= tables.roots_of(other));
        }
    }
}

/// A workspace that was given its roots can be given them again, in any order:
/// unless SQLite refuses, that succeeds, and no workspace and no root changes.
pub proof fn update_can_be_repeated(
    before: Database,
    id: i64,
    roots: Seq<Seq<char>>,
    between: Database,
    permuted: Seq<Seq<char>>,
    ok: bool,
    after: Database,
)
    requires
        update_outcome(before, id, roots, true, between),
        roots.to_multiset() == permuted.to_multiset(),
        update_outcome(between, id, permuted, ok, after),
        after.refusals == between.refusals,
    ensures
        ok,
        after.visible() == between.visible().stamped(id, after.visible().workspaces[id].time),
        after.visible().workspaces.dom() =~= between.visible().workspaces.dom(),
        after.visible().roots =~= between.visible().roots,
{
    lemma_refusal_shows(between.refusals);
    let first = between.committed.workspaces[id].time;
    let second = after.committed.workspaces[id].time;
    roots.to_multiset_ensures();
    permuted.to_multiset_ensures();
    roots.lemma_multiset_has_no_duplicates();
    permuted.lemma_multiset_has_no_duplicates_conv();
    if roots.len() > 0 {
        assert(!before.committed.displaced(id, id, roots));
        assert(between.committed.workspaces.contains_key(id));
    }
    assert(between.committed.accepts(id, permuted));
    update_is_idempotent(before.committed, id, roots, permuted, first, second);
}

/// Unless SQLite refuses, giving a workspace its roots succeeds if and only if no
/// root occurs twice and, where there are roots, the workspace exists.
pub proof fn update_succeeds_where_owed(
    before: Database,
    id: i64,
    roots: Seq<Seq<char>>,
    ok: bool,
    after: Database,
)
    requires
        before.pending is None,
        update_outcome(before, id, roots, ok, after),
        after.refusals == before.refusals,
    ensures
        ok <==> before.visible().accepts(id, roots),
{
    lemma_refusal_shows(before.refusals);
}

/// Giving a workspace its roots writes its stamp once, and that of no other.
pub proof fn update_stamps_the_workspace(
    before: Database,
    id: i64,
    roots: Seq<Seq<char>>,
    after: Database,
    other: i64,
)
    requires
        update_outcome(before, id, roots, true, after),
        after.visible().workspaces.contains_key(other),
    ensures
        before.visible().workspaces.contains_key(other),
        after.visible().workspaces[other].writes == before.visible().workspaces[other].writes
            + if other == id { 1nat } else { 0nat },
{
}

/// An update that fails changes no committed row and, unless SQLite refused to
/// undo its transaction or an earlier one, no row at all.
pub proof fn failed_update_changes_nothing(
    before: Database,
    id: i64,
    roots: Seq<Seq<char>>,
    after: Database,
)
    requires
        update_outcome(before, id, roots, false, after),
    ensures
        after.committed == before.committed,
        before.pending is None ==> after.visible() == before.visible() || after.stuck,
{
}

/// A new workspace has an id that is larger than every id handed out before, so
/// that of a removed workspace is not given to another. It has no roots.
pub proof fn new_workspace_is_fresh(before: Database, id: WorkspaceId, after: Database)
    requires
        before.valid(),
        creation_outcome(Some(before), id, Some(after)),
        id != WorkspaceId(0),
    ensures
        id.0 > before.visible().last_id,
        !before.visible().workspaces.contains_key(id.0),
        after.visible().workspaces.contains_key(id.0),
        after.visible().roots_of(id.0) =~= Set::empty(),
        after.visible().last_id == id.0,
{
    assert forall|root: Seq<char>| !before.visible().roots.contains((id.0, root)) by {
        if before.visible().roots.contains((id.0, root)) {
            assert(before.visible().workspaces.contains_key(id.0));
        }
    }
}

/// Making a workspace leaves every other one as it is, and changes no lookup.
pub proof fn new_workspace_keeps_the_others(
    before: Database,
    id: WorkspaceId,
    after: Database,
    other: i64,
    roots: Seq<Seq<char>>,
)
    requires
        before.valid(),
        creation_outcome(Some(before), id, Some(after)),
        id != WorkspaceId(0),
        other != id.0,
    ensures
        after.visible().workspaces.contains_key(other)
            <==> before.visible().workspaces.contains_key(other),
        before.visible().workspaces.contains_key(other) ==> after.visible().workspaces[other]
            == before.visible().workspaces[other],
        after.visible().registered(other, roots) <==> before.visible().registered(other, roots),
        !after.visible().registered(id.0, roots),
{
    new_workspace_is_fresh(before, id, after);
    assert(after.visible().roots_of(other) =~= before.visible().roots_of(other));
    if after.visible().registered(id.0, roots) {
        assert(roots.to_set().contains(roots[0]));
    }
}

/// Giving a workspace its roots hands out no id, even where it removes a
/// workspace.
pub proof fn update_hands_out_no_id(
    before: Database,
    id: i64,
    roots: Seq<Seq<char>>,
    ok: bool,
    after: Database,
)
    requires
        update_outcome(before, id, roots, ok, after),
    ensures
        after.committed.last_id == before.committed.last_id,
{
}

/// A list that may be as long as there are workspaces shows them all.
pub proof fn long_list_shows_every_workspace(
    tables: Tables,
    list: Seq<(WorkspaceId, Vec<PathBuf>)>,
    limit: int,
    id: i64,
)
    requires
        tables.sound(),
        shows_recent(tables, list, limit),
        limit >= tables.workspaces.dom().len(),
        tables.workspaces.contains_key(id),
    ensures
        exists|i: int| 0 <= i < list.len() && (#[trigger] list[i]).0 == WorkspaceId(id),
{
    let ids = list.map_values(|entry: (WorkspaceId, Vec<PathBuf>)| entry.0.0);
    seq_to_set_is_finite(ids);
    ids.unique_seq_to_set();
    assert forall|w: i64| ids.to_set().contains(w) implies tables.workspaces.dom().contains(w) by {
        let i = choose|i: int| 0 <= i < ids.len() && ids[i] == w;
        assert(tables.workspaces.contains_key(ids[i]));
    }
    lemma_subset_equality(ids.to_set(), tables.workspaces.dom());
    assert(ids.contains(id));
    let i = choose|i: int| 0 <= i < ids.len() && ids[i] == id;
    assert(list[i].0 == WorkspaceId(id));
}

/// The roots that a workspace is listed with, if it has any, name that workspace.
pub proof fn listed_roots_name_their_workspace(
    tables: Tables,
    list: Seq<(WorkspaceId, Vec<PathBuf>)>,
    limit: int,
    i: int,
)
    requires
        shows_recent(tables, list, limit),
        0 <= i < list.len(),
        list[i].1@.len() > 0,
    ensures
        tables.registered(list[i].0.0, path_texts(list[i].1@)),
{
}

/// A workspace that was given its roots is listed with these roots, each once.
pub proof fn update_is_listed(
    before: Database,
    id: i64,
    roots: Seq<Seq<char>>,
    after: Database,
    list: Seq<(WorkspaceId, Vec<PathBuf>)>,
    limit: int,
    i: int,
)
    requires
        update_outcome(before, id, roots, true, after),
        shows_recent(after.committed, list, limit),
        0 <= i < list.len(),
        list[i].0 == WorkspaceId(id),
    ensures
        enumerates(path_texts(list[i].1@), roots.to_set()),
{
    assert(after.committed.roots_of(id) =~= roots.to_set());
}

/// Unless SQLite refuses, listing succeeds if and only if SQLite can count up to
/// the limit. The list is then as long as the limit and the number of workspaces
/// allow.
pub proof fn listing_succeeds_where_owed(
    before: Database,
    limit: usize,
    listed: Result<Vec<(WorkspaceId, Vec<PathBuf>)>, DbError>,
    after: Database,
)
    requires
        before.pending is None,
        list_outcome(before, limit, listed, after),
        after.refusals == before.refusals,
    ensures
        listed is Ok <==> limit <= i64::MAX,
        listed matches Ok(list) ==> list@.len() == if limit
            <= before.visible().workspaces.dom().len() {
            limit as int
        } else {
            before.visible().workspaces.dom().len() as int
        },
{
    lemma_refusal_shows(before.refusals);
}

/// A workspace that was given its roots, at a later time than is stamped on every
/// other one, heads the list with these roots, unless SQLite refuses.
pub proof fn updated_workspace_heads_the_list(
    before: Database,
    id: i64,
    roots: Seq<Seq<char>>,
    between: Database,
    limit: usize,
    listed: Result<Vec<(WorkspaceId, Vec<PathBuf>)>, DbError>,
    after: Database,
)
    requires
        before.valid(),
        before.visible().workspaces.contains_key(id),
        update_outcome(before, id, roots, true, between),
        forall|other: i64|
            other != id && #[trigger] between.visible().workspaces.contains_key(other) ==> !text_le(
                between.visible().workspaces[id].time,
                between.visible().workspaces[other].time,
            ),
        1 <= limit <= i64::MAX,
        list_outcome(between, limit, listed, after),
        after.refusals == between.refusals,
    ensures
        listed matches Ok(list) && {
            &&& list@.len() > 0
            &&& list@[0].0 == WorkspaceId(id)
            &&& path_texts(list@[0].1@).to_multiset() == roots.to_multiset()
        },
{
    lemma_refusal_shows(between.refusals);
    let tables = between.committed;
    before.committed.lemma_updated(id, roots, tables.workspaces[id].time);
    assert(!before.committed.displaced(id, id, roots));
    assert(tables.workspaces.contains_key(id));
    let list = listed.unwrap()@;
    let ids = list.map_values(|entry: (WorkspaceId, Vec<PathBuf>)| entry.0.0);
    assert(tables.workspaces.dom().len() > 0) by {
        assert(tables.workspaces.dom().contains(id));
    }
    assert(ids.len() > 0);
    assert(ids[0] == id) by {
        assert(between.visible().workspaces.contains_key(ids[0]));
        assert(tables.workspaces.contains_key(id));
        if ids.contains(id) {
            let k = choose|k: int| 0 <= k < ids.len() && ids[k] == id;
            assert(text_le(tables.workspaces[ids[k]].time, tables.workspaces[ids[0]].time));
        }
    }
    assert(list[0].0 == WorkspaceId(id));
    update_is_listed(before, id, roots, between, list, limit as int, 0);
    lemma_same_set_is_permuted(path_texts(list[0].1@), roots);
}

/// Where no two workspaces have the same time, a list with a smaller limit names
/// the workspaces with which one with a larger limit begins.
pub proof fn shorter_list_is_a_prefix(
    workspaces: Map<i64, Stamp>,
    shorter: Seq<i64>,
    smaller: int,
    longer: Seq<i64>,
    larger: int,
)
    requires
        forall|a: i64, b: i64| #[trigger]
            workspaces.contains_key(a) && #[trigger] workspaces.contains_key(b) && a != b
                ==> workspaces[a].time != workspaces[b].time,
        0 <= smaller <= larger,
        most_recent(workspaces, shorter, smaller),
        most_recent(workspaces, longer, larger),
    ensures
        shorter == longer.take(shorter.len() as int),
{
    assert forall|i: int| 0 <= i < shorter.len() implies shorter[i] == longer[i] by {
        lemma_lists_agree(workspaces, shorter, smaller, longer, larger, i);
    }
    assert(shorter =~= longer.take(shorter.len() as int));
}

/// Two lists of the same workspaces agree as far as both go.
proof fn lemma_lists_agree(
    workspaces: Map<i64, Stamp>,
    a: Seq<i64>,
    a_limit: int,
    b: Seq<i64>,
    b_limit: int,
    i: int,
)
    requires
        forall|a: i64, b: i64| #[trigger]
            workspaces.contains_key(a) && #[trigger] workspaces.contains_key(b) && a != b
                ==> workspaces[a].time != workspaces[b].time,
        most_recent(workspaces, a, a_limit),
        most_recent(workspaces, b, b_limit),
        0 <= i < a.len(),
        i < b.len(),
    ensures
        a[i] == b[i],
    decreases i,
{
    assert forall|j: int| 0 <= j < i implies a[j] == b[j] by {
        lemma_lists_agree(workspaces, a, a_limit, b, b_limit, j);
    }
    lemma_not_before(workspaces, a, a_limit, b, i);
    lemma_not_before(workspaces, b, b_limit, a, i);
    lemma_text_le_antisymmetric(workspaces[a[i]].time, workspaces[b[i]].time);
    assert(workspaces.contains_key(a[i]) && workspaces.contains_key(b[i]));
}

/// What another list shows in a place up to which the two agree is not later than
/// what this list shows there.
proof fn lemma_not_before(
    workspaces: Map<i64, Stamp>,
    list: Seq<i64>,
    limit: int,
    other: Seq<i64>,
    i: int,
)
    requires
        most_recent(workspaces, list, limit),
        other.no_duplicates(),
        0 <= i < list.len(),
        i < other.len(),
        workspaces.contains_key(other[i]),
        forall|j: int| 0 <= j < i ==> list[j] == other[j],
    ensures
        text_le(workspaces[other[i]].time, workspaces[list[i]].time),
{
    if list.contains(other[i]) {
        let k = choose|k: int| 0 <= k < list.len() && list[k] == other[i];
        if k < i {
            assert(other[k] == other[i]);
        }
        assert(text_le(workspaces[list[k]].time, workspaces[list[i]].time));
    }
}

} // verus!
