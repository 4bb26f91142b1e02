//! The order in which the agent goes through the phases.

use crate::phase::{next_state, rank, AgentState, Phase, Snapshot};
use vstd::prelude::*;

verus! {

/// The phases the agent named `name` is in after each of `snapshots`, from
/// `state` on, up to the first snapshot on which it gives up.
pub open spec fn visited(name: Seq<char>, state: AgentState, snapshots: Seq<Snapshot>) -> Seq<
    Phase,
>
    decreases snapshots.len(),
{
    if snapshots.len() == 0 {
        Seq::empty()
    } else {
        match next_state(name, state, snapshots.first()) {
            Ok(next) => seq![next.phase()] + visited(name, next, snapshots.drop_first()),
            Err(_) => Seq::empty(),
        }
    }
}

/// Whether a snapshot of phase `found` is out of order for an agent in phase
/// `during`: it is of an earlier phase, or skips one.
pub open spec fn out_of_order(during: Phase, found: Phase) -> bool {
    rank(found) < rank(during) || rank(found) > rank(during) + 1
}

/// Whether the snapshot at `k` is of an earlier phase than the one before it.
pub open spec fn steps_back(snapshots: Seq<Snapshot>, k: int) -> bool {
    0 < k < snapshots.len() && rank(snapshots[k].phase()) < rank(snapshots[k - 1].phase())
}

/// One snapshot moves the agent to the snapshot's phase, which is its own or the
/// next one; a snapshot that is out of order makes it give up.
pub proof fn lemma_step_in_order(name: Seq<char>, state: AgentState, snapshot: Snapshot)
    ensures
        next_state(name, state, snapshot) matches Ok(next) ==> next.phase() == snapshot.phase()
            && rank(state.phase()) <= rank(next.phase()) <= rank(state.phase()) + 1 && (
        state.me() is Some ==> next.me() == state.me()),
        out_of_order(state.phase(), snapshot.phase()) ==> next_state(name, state, snapshot) is Err,
{
}

/// The phase the agent is in after the snapshot at `i` is that snapshot's phase,
/// and is not before the phase it started in.
pub proof fn lemma_visited_follows(
    name: Seq<char>,
    state: AgentState,
    snapshots: Seq<Snapshot>,
    i: int,
)
    requires
        0 <= i < visited(name, state, snapshots).len(),
    ensures
        i < snapshots.len(),
        visited(name, state, snapshots)[i] == snapshots[i].phase(),
        rank(state.phase()) <= rank(visited(name, state, snapshots)[i]),
    decreases snapshots.len(),
{
    let first = snapshots.first();
    let rest = snapshots.drop_first();
    lemma_step_in_order(name, state, first);
    let next = next_state(name, state, first).unwrap();
    assert(visited(name, state, snapshots) == seq![next.phase()] + visited(name, next, rest));
    if i > 0 {
        lemma_visited_follows(name, next, rest, i - 1);
        assert(rest[i - 1] == snapshots[i]);
    }
}

/// Of two phases the agent visits, the later is not before the earlier.
pub proof fn lemma_visited_ordered(
    name: Seq<char>,
    state: AgentState,
    snapshots: Seq<Snapshot>,
    i: int,
    j: int,
)
    requires
        0 <= i <= j < visited(name, state, snapshots).len(),
    ensures
        rank(visited(name, state, snapshots)[i]) <= rank(visited(name, state, snapshots)[j]),
    decreases snapshots.len(),
{
    let first = snapshots.first();
    let rest = snapshots.drop_first();
    let next = next_state(name, state, first).unwrap();
    assert(visited(name, state, snapshots) == seq![next.phase()] + visited(name, next, rest));
    if i > 0 {
        lemma_visited_ordered(name, next, rest, i - 1, j - 1);
    } else if j > 0 {
        lemma_visited_follows(name, next, rest, j - 1);
    }
}

/// Whatever snapshots the agent is fed, the phases it visits never go back: each
/// is the phase of the snapshot that led to it, none is before the phase the
/// agent started in, and a later one is never before an earlier one. A snapshot
/// that is out of order, or of an earlier phase than the one before it, ends the
/// run: the agent has given up by then.
pub proof fn lemma_phases_never_decrease(
    name: Seq<char>,
    state: AgentState,
    snapshots: Seq<Snapshot>,
)
    ensures
        visited(name, state, snapshots).len() <= snapshots.len(),
        forall|i: int|
            0 <= i < visited(name, state, snapshots).len() ==> #[trigger] visited(
                name,
                state,
                snapshots,
            )[i] == snapshots[i].phase() && rank(state.phase()) <= rank(
                visited(name, state, snapshots)[i],
            ),
        forall|i: int, j: int|
            0 <= i <= j < visited(name, state, snapshots).len() ==> rank(
                #[trigger] visited(name, state, snapshots)[i],
            ) <= rank(#[trigger] visited(name, state, snapshots)[j]),
        forall|k: int| #[trigger]
            steps_back(snapshots, k) ==> visited(name, state, snapshots).len() <= k,
        snapshots.len() > 0 && out_of_order(state.phase(), snapshots[0].phase()) ==> visited(
            name,
            state,
            snapshots,
        ).len() == 0,
{
    let here = visited(name, state, snapshots);
    if here.len() > 0 {
        lemma_visited_follows(name, state, snapshots, here.len() - 1);
    }
    assert forall|i: int| 0 <= i < here.len() implies #[trigger] here[i] == snapshots[i].phase()
        && rank(state.phase()) <= rank(here[i]) by {
        lemma_visited_follows(name, state, snapshots, i);
    }
    assert forall|i: int, j: int| 0 <= i <= j < here.len() implies rank(#[trigger] here[i])
        <= rank(#[trigger] here[j]) by {
        lemma_visited_ordered(name, state, snapshots, i, j);
    }
    assert forall|k: int| #[trigger] steps_back(snapshots, k) implies here.len() <= k by {
        if here.len() > k {
            lemma_visited_follows(name, state, snapshots, k);
            lemma_visited_follows(name, state, snapshots, k - 1);
            lemma_visited_ordered(name, state, snapshots, k - 1, k);
        }
    }
    if snapshots.len() > 0 {
        lemma_step_in_order(name, state, snapshots.first());
    }
}

} // verus!
