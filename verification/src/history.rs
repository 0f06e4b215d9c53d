//! What holds of a database over a history of calls.

use vstd::prelude::*;
use std::path::PathBuf;
use crate::db::{creation_outcome, find_outcome, list_outcome};
use crate::lookup::lookup_outcome;
use crate::model::Database;
use crate::store::update_outcome;
use crate::workspace::{DbError, WorkspaceId};

verus! {

/// A call on a database, with what it was given and what it gave back.
pub enum Call {
    Make { id: WorkspaceId },
    FindOrMake { roots: Seq<Seq<char>>, id: WorkspaceId },
    LookUp { roots: Seq<Seq<char>>, found: Result<Option<WorkspaceId>, DbError> },
    Update { id: WorkspaceId, roots: Seq<Seq<char>>, ok: bool },
    List { limit: usize, listed: Result<Vec<(WorkspaceId, Vec<PathBuf>)>, DbError> },
}

impl Call {
    /// Whether the call can take a database from `before` to `after`.
    pub open spec fn takes(self, before: Database, after: Database) -> bool {
        match self {
            Call::Make { id } => creation_outcome(Some(before), id, Some(after)),
            Call::FindOrMake { roots, id } => find_outcome(Some(before), roots, id, Some(after)),
            Call::LookUp { roots, found } => lookup_outcome(before, roots, found, after),
            Call::Update { id, roots, ok } => update_outcome(before, id.0, roots, ok, after),
            Call::List { limit, listed } => list_outcome(before, limit, listed, after),
        }
    }

    /// Whether the call, on the database `before`, made a workspace and gave back
    /// its id.
    pub open spec fn made(self, before: Database, made: WorkspaceId) -> bool {
        match self {
            Call::Make { id } => id == made && id != WorkspaceId(0),
            Call::FindOrMake { roots, id } => {
                &&& id == made
                &&& id != WorkspaceId(0)
                &&& !before.visible().registered(id.0, roots)
            },
            _ => false,
        }
    }
}

/// Whether the calls take a database through the states, one after another. No
/// transaction is open in them: SQLite never refused to undo one.
pub open spec fn history(calls: Seq<Call>, states: Seq<Database>) -> bool {
    &&& states.len() == calls.len() + 1
    &&& forall|i: int| 0 <= i < states.len() ==> (#[trigger] states[i]).valid()
    &&& forall|i: int| 0 <= i < states.len() ==> (#[trigger] states[i]).pending is None
    &&& forall|i: int|
        0 <= i < calls.len() ==> (#[trigger] calls[i]).takes(states[i], states[i + 1])
}

/// No call lowers the largest id handed out, and one that makes a workspace gives
/// it the next id.
proof fn lemma_call(call: Call, before: Database, after: Database)
    requires
        before.valid(),
        before.pending is None,
        after.pending is None,
        call.takes(before, after),
    ensures
        before.committed.last_id <= after.committed.last_id,
        forall|id: WorkspaceId| #[trigger]
            call.made(before, id) ==> id.0 == before.committed.last_id + 1 && id.0
                == after.committed.last_id,
{
}

/// Over a history, the largest id handed out does not decrease.
proof fn lemma_last_id(calls: Seq<Call>, states: Seq<Database>, i: int, j: int)
    requires
        history(calls, states),
        0 <= i <= j < states.len(),
    ensures
        states[i].committed.last_id <= states[j].committed.last_id,
    decreases j - i,
{
    if i < j {
        lemma_last_id(calls, states, i, j - 1);
        assert(calls[j - 1].takes(states[j - 1], states[j]));
        lemma_call(calls[j - 1], states[j - 1], states[j]);
    }
}

/// Over a history of calls, the ids of the workspaces that are made increase,
/// whatever was removed in between, so that none is ever handed out twice.
pub proof fn ids_increase(
    calls: Seq<Call>,
    states: Seq<Database>,
    i: int,
    earlier: WorkspaceId,
    j: int,
    later: WorkspaceId,
)
    requires
        history(calls, states),
        0 <= i < j < calls.len(),
        calls[i].made(states[i], earlier),
        calls[j].made(states[j], later),
    ensures
        earlier.0 < later.0,
{
    assert(calls[i].takes(states[i], states[i + 1]));
    assert(calls[j].takes(states[j], states[j + 1]));
    lemma_call(calls[i], states[i], states[i + 1]);
    lemma_call(calls[j], states[j], states[j + 1]);
    lemma_last_id(calls, states, i + 1, j);
}

} // verus!
