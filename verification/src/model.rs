//! What a workspace database holds, as mathematics: the rows of its two tables
//! and the transaction that may be open on them.

use vstd::prelude::*;
use vstd::seq_lib::seq_to_set_is_finite;
use vstd::set_lib::lemma_set_subset_finite;
use crate::sql::SqlValue;

verus! {

/// The time at which a workspace was last written, as a text, and how many times
/// it has been written, its creation included.
#[verifier::ext_equal]
pub struct Stamp {
    pub time: Seq<char>,
    pub writes: nat,
}

/// The rows of the two tables.
///
/// `workspaces` maps each workspace id to the stamp of its last writing, and
/// `roots` holds one `(workspace id, worktree root)` pair per registered root.
/// `last_id` is the largest workspace id that was ever handed out, or zero.
#[verifier::ext_equal]
pub struct Tables {
    pub workspaces: Map<i64, Stamp>,
    pub roots: Set<(i64, Seq<char>)>,
    pub last_id: int,
}

impl Tables {
    /// No rows, and no id handed out yet.
    pub open spec fn empty() -> Tables {
        Tables { workspaces: Map::empty(), roots: Set::empty(), last_id: 0 }
    }

    /// The roots registered for workspace `id`.
    pub open spec fn roots_of(self, id: i64) -> Set<Seq<char>> {
        Set::new(|root: Seq<char>| self.roots.contains((id, root)))
    }

    /// Whether `roots` names, each once, exactly the roots of workspace `id`.
    /// The empty list names no workspace.
    pub open spec fn registered(self, id: i64, roots: Seq<Seq<char>>) -> bool {
        &&& roots.len() > 0
        &&& roots.no_duplicates()
        &&& self.roots_of(id) =~= roots.to_set()
    }

    /// Every root belongs to a workspace, and every workspace id lies between
    /// one and the largest id handed out.
    pub open spec fn sound(self) -> bool {
        &&& self.workspaces.dom().finite()
        &&& self.roots.finite()
        &&& forall|id: i64, root: Seq<char>| #[trigger]
            self.roots.contains((id, root)) ==> self.workspaces.contains_key(id)
        &&& forall|id: i64| #[trigger]
            self.workspaces.contains_key(id) ==> 1 <= id <= self.last_id
        &&& 0 <= self.last_id <= i64::MAX
    }

    /// No two workspaces have the same roots, unless they have none.
    pub open spec fn distinct_root_sets(self) -> bool {
        forall|a: i64, b: i64|
            a != b && #[trigger] self.roots_of(a) =~= #[trigger] self.roots_of(b)
                ==> self.roots_of(a) =~= Set::empty()
    }

    /// What holds of the tables between any two operations.
    pub open spec fn valid(self) -> bool {
        self.sound() && self.distinct_root_sets()
    }

    /// A row for the next workspace id, written at `time`.
    pub open spec fn with_new_workspace(self, time: Seq<char>) -> Tables {
        Tables {
            workspaces: self.workspaces.insert(
                (self.last_id + 1) as i64,
                Stamp { time, writes: 1 },
            ),
            last_id: self.last_id + 1,
            ..self
        }
    }

    /// Workspace `id` removed, its roots with it.
    pub open spec fn without_workspace(self, id: i64) -> Tables {
        Tables {
            workspaces: self.workspaces.remove(id),
            roots: self.without_roots(id).roots,
            ..self
        }
    }

    /// The roots of workspace `id` removed.
    pub open spec fn without_roots(self, id: i64) -> Tables {
        Tables { roots: self.roots.filter(|row: (i64, Seq<char>)| row.0 != id), ..self }
    }

    /// One more root for workspace `id`.
    pub open spec fn with_root(self, id: i64, root: Seq<char>) -> Tables {
        Tables { roots: self.roots.insert((id, root)), ..self }
    }

    /// The stamp of workspace `id` if it is written once more, at `time`.
    pub open spec fn next_stamp(self, id: i64, time: Seq<char>) -> Stamp {
        Stamp { time, writes: self.workspaces[id].writes + 1 }
    }

    /// Workspace `id`, where there is one, written once more, at `time`.
    pub open spec fn stamped(self, id: i64, time: Seq<char>) -> Tables {
        if self.workspaces.contains_key(id) {
            Tables {
                workspaces: self.workspaces.insert(id, self.next_stamp(id, time)),
                ..self
            }
        } else {
            self
        }
    }

    /// Whether workspace `id` can be given `roots`: no root occurs twice, and there
    /// is such a workspace if there are roots.
    pub open spec fn accepts(self, id: i64, roots: Seq<Seq<char>>) -> bool {
        &&& roots.no_duplicates()
        &&& roots.len() > 0 ==> self.workspaces.contains_key(id)
    }

    /// Whether registering `roots` for workspace `id` makes workspace `other`
    /// redundant.
    pub open spec fn displaced(self, other: i64, id: i64, roots: Seq<Seq<char>>) -> bool {
        other != id && self.registered(other, roots)
    }

    /// Workspace `id` with exactly `roots` as its roots, written at `time`, and
    /// no other workspace with those roots. All else stays.
    pub open spec fn updated(self, id: i64, roots: Seq<Seq<char>>, time: Seq<char>) -> Tables {
        Tables {
            workspaces: Map::new(
                |w: i64| self.workspaces.contains_key(w) && !self.displaced(w, id, roots),
                |w: i64|
                    if w == id {
                        self.next_stamp(id, time)
                    } else {
                        self.workspaces[w]
                    },
            ),
            roots: Set::new(
                |row: (i64, Seq<char>)|
                    if row.0 == id {
                        roots.contains(row.1)
                    } else {
                        self.roots.contains(row) && !self.displaced(row.0, id, roots)
                    },
            ),
            last_id: self.last_id,
        }
    }
}

impl Tables {
    /// A new workspace keeps the tables valid.
    pub proof fn lemma_with_new_workspace(self, time: Seq<char>)
        requires
            self.sound(),
            self.last_id < i64::MAX,
        ensures
            self.with_new_workspace(time).sound(),
            self.valid() ==> self.with_new_workspace(time).valid(),
    {
        let after = self.with_new_workspace(time);
        assert forall|id: i64| after.roots_of(id) =~= self.roots_of(id) by {}
    }

    /// Removing the roots of a workspace keeps the tables sound.
    pub proof fn lemma_without_roots(self, id: i64)
        requires
            self.sound(),
        ensures
            self.without_roots(id).sound(),
    {
        lemma_set_subset_finite(self.roots, self.without_roots(id).roots);
    }

    /// Removing a workspace keeps the tables sound.
    pub proof fn lemma_without_workspace(self, id: i64)
        requires
            self.sound(),
        ensures
            self.without_workspace(id).sound(),
    {
        self.lemma_without_roots(id);
    }

    /// A root for a workspace that exists keeps the tables sound.
    pub proof fn lemma_with_root(self, id: i64, root: Seq<char>)
        requires
            self.sound(),
            self.workspaces.contains_key(id),
        ensures
            self.with_root(id, root).sound(),
    {
    }

    /// Giving a workspace its roots keeps the tables valid: no two workspaces come
    /// to have the same ones.
    pub proof fn lemma_updated(self, id: i64, roots: Seq<Seq<char>>, time: Seq<char>)
        requires
            self.valid(),
            self.accepts(id, roots),
        ensures
            self.updated(id, roots, time).valid(),
    {
        let after = self.updated(id, roots, time);
        lemma_set_subset_finite(self.workspaces.dom(), after.workspaces.dom());
        let pair = |root: Seq<char>| (id, root);
        seq_to_set_is_finite(roots);
        roots.to_set().lemma_map_finite(pair);
        let bound = self.roots.union(roots.to_set().map(pair));
        assert forall|row: (i64, Seq<char>)| after.roots.contains(row) implies bound.contains(
            row,
        ) by {
            if row.0 == id {
                assert(roots.to_set().contains(row.1) && pair(row.1) == row);
            }
        }
        lemma_set_subset_finite(bound, after.roots);
        assert(after.roots_of(id) =~= roots.to_set());
        assert forall|w: i64| w != id implies after.roots_of(w) =~= if self.displaced(w, id, roots) {
            Set::empty()
        } else {
            self.roots_of(w)
        } by {}
        assert forall|a: i64, b: i64|
            a != b && #[trigger] after.roots_of(a) =~= #[trigger] after.roots_of(b) implies after.roots_of(
            a,
        ) =~= Set::empty() by {
            if a != id && b != id {
                assert(self.roots_of(a) =~= self.roots_of(b) ==> self.roots_of(a) =~= Set::empty());
            } else {
                let other = if a == id { b } else { a };
                if roots.len() == 0 {
                    assert(after.roots_of(id) =~= Set::empty());
                } else if !self.displaced(other, id, roots) {
                    assert(self.roots_of(other) =~= roots.to_set());
                    assert(false);
                }
            }
        }
    }
}

/// A statement as it is sent to SQLite: its text, and its parameters in their
/// order.
#[verifier::ext_equal]
pub struct Statement {
    pub sql: Seq<char>,
    pub params: Seq<SqlValue>,
}

/// A database as one connection sees it.
///
/// `ready` says that the two tables exist as the schema declares them, that
/// foreign keys are enforced, that no root stands without its workspace, and that
/// no other connection writes to the tables.
/// `pending` holds the rows as the open transaction has made them, `committed`
/// the rows that undoing it returns to, and `stuck` says that SQLite has refused
/// to undo it. `last_rowid` is the row id of the last insertion, and `refusals`
/// lists, in their order, the statements in which SQLite has failed though neither
/// the rows nor the transaction stood against them: for want of memory or disk, or
/// at one of its limits. A transaction that it fails to undo is not listed.
#[verifier::ext_equal]
pub struct Database {
    pub ready: bool,
    pub committed: Tables,
    pub pending: Option<Tables>,
    pub stuck: bool,
    pub last_rowid: i64,
    pub refusals: Seq<Statement>,
}

impl Database {
    /// The rows that a statement on the connection reads.
    pub open spec fn visible(self) -> Tables {
        match self.pending {
            Some(tables) => tables,
            None => self.committed,
        }
    }

    /// What holds of a database between any two operations.
    ///
    /// A transaction is open then only if SQLite refused to undo it.
    pub open spec fn valid(self) -> bool {
        &&& self.ready
        &&& self.committed.valid()
        &&& self.pending matches Some(tables) ==> tables.sound() && self.stuck
    }

    /// The same rows, and the same transaction.
    pub open spec fn same_rows(self, other: Database) -> bool {
        &&& self.ready == other.ready
        &&& self.committed == other.committed
        &&& self.pending == other.pending
        &&& self.pending is Some ==> self.stuck == other.stuck
    }

    /// What a failed statement leaves: the rows as they were or, where the
    /// failure ended an open transaction, the rows from before it.
    pub open spec fn after_failure(self, after: Database) -> bool {
        ||| after.same_rows(self)
        ||| self.pending is Some && after.same_rows(self.rolled_back())
    }

    /// What a failed statement leaves, with the refusals: it is one more of them if
    /// success was owed.
    pub open spec fn failed(self, statement: Statement, owed: bool, after: Database) -> bool {
        &&& self.after_failure(after)
        &&& after.refusals == if owed {
            self.refusals.push(statement)
        } else {
            self.refusals
        }
    }

    /// What a statement leaves that failed though success was owed.
    pub open spec fn refused(self, statement: Statement, after: Database) -> bool {
        self.failed(statement, true, after)
    }

    /// What undoing a transaction leaves: the rows from before it, unless SQLite
    /// refuses.
    pub open spec fn after_abandon(self, after: Database) -> bool {
        ||| after.same_rows(self.rolled_back())
        ||| after.same_rows(Database { stuck: true, ..self })
    }

    /// The open transaction, if any, undone.
    pub open spec fn rolled_back(self) -> Database {
        Database { pending: None, ..self }
    }

    /// `tables` written: into the open transaction, or else at once.
    pub open spec fn wrote(self, tables: Tables, rowid: i64) -> Database {
        match self.pending {
            Some(_) => Database { pending: Some(tables), last_rowid: rowid, ..self },
            None => Database { committed: tables, last_rowid: rowid, ..self },
        }
    }
}

} // verus!
