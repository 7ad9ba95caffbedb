//! The sync engine's decisions, separated from the loops that await the two
//! stores: which way a diverged note must be pushed, what to do with each
//! incoming change event, and which proposals are missing from the ledger
//! side and must be replicated.

use vstd::prelude::*;
use crate::lists::{contains_string, lemma_vec_push_deep};

verus! {

/// A change event from either backing store, as the merged stream delivers
/// it.
pub enum SyncEvent {
    NoteUpdated { id: String, content: Vec<u8> },
    ContextChanged { id: String, participants: Vec<String> },
    ConflictDetected { note_id: String },
}

/// What the sync loop must do for one event.
pub enum SyncStep {
    PushNoteUpdate { id: String, content: Vec<u8> },
    UpdateSharingContext { id: String, participants: Vec<String> },
    ResolveConflict { note_id: String },
}

/// Which way a note must be pushed, from its two store clocks: toward the
/// side whose clock is behind, the higher timestamp winning. Equal clocks
/// from both sides are an explicit conflict for reconciliation, never
/// resolved by clock comparison alone.
pub enum SyncDirection {
    PushToCollab,
    PushToLedger,
    Conflict,
}

/// Decides the push direction for one note from its clock pair.
pub fn resolve_direction(ledger_clock: u64, collab_clock: u64) -> (r: SyncDirection)
    ensures
        r is PushToCollab <==> ledger_clock > collab_clock,
        r is PushToLedger <==> ledger_clock < collab_clock,
        r is Conflict <==> ledger_clock == collab_clock,
{
    if ledger_clock > collab_clock {
        SyncDirection::PushToCollab
    } else if ledger_clock < collab_clock {
        SyncDirection::PushToLedger
    } else {
        SyncDirection::Conflict
    }
}

/// Maps one incoming event to the step the loop must run: a note update is
/// pushed across, a participant change updates the sharing context, and a
/// detected conflict goes to reconciliation.
pub fn plan_event_step(event: SyncEvent) -> (r: SyncStep)
    ensures
        event matches SyncEvent::NoteUpdated { id, content }
            ==> r matches SyncStep::PushNoteUpdate { id: rid, content: rc }
                && rid == id && rc == content,
        event matches SyncEvent::ContextChanged { id, participants }
            ==> r matches SyncStep::UpdateSharingContext { id: rid, participants: rp }
                && rid == id && rp == participants,
        event matches SyncEvent::ConflictDetected { note_id }
            ==> r matches SyncStep::ResolveConflict { note_id: rid } && rid == note_id,
{
    match event {
        SyncEvent::NoteUpdated { id, content } => SyncStep::PushNoteUpdate { id, content },
        SyncEvent::ContextChanged { id, participants } => SyncStep::UpdateSharingContext {
            id,
            participants,
        },
        SyncEvent::ConflictDetected { note_id } => SyncStep::ResolveConflict { note_id },
    }
}

/// The proposals the collaboration store holds that the ledger side does
/// not: exactly those must be replicated across this cycle, in the order
/// the collaboration store listed them.
pub fn plan_replication(calimero_proposals: &Vec<String>, icp_state: &Vec<String>) -> (r: Vec<
    String,
>)
    ensures
        r.deep_view() == calimero_proposals.deep_view().filter(
            |k: Seq<char>| !icp_state.deep_view().contains(k),
        ),
        forall|k: Seq<char>| #[trigger] r.deep_view().contains(k)
            <==> calimero_proposals.deep_view().contains(k) && !icp_state.deep_view().contains(k),
{
    let ghost pred = |k: Seq<char>| !icp_state.deep_view().contains(k);
    let mut r: Vec<String> = Vec::new();
    let n = calimero_proposals.len();
    let mut i: usize = 0;
    proof {
        reveal(Seq::filter);
        assert(r.deep_view() =~= calimero_proposals.deep_view().take(0).filter(pred));
    }
    while i < n
        invariant
            n == calimero_proposals@.len(),
            i <= n,
            pred == (|k: Seq<char>| !icp_state.deep_view().contains(k)),
            r.deep_view() =~= calimero_proposals.deep_view().take(i as int).filter(pred),
            forall|j: int| #![auto]
                0 <= j < r@.len()
                    ==> !icp_state.deep_view().contains(r@[j]@)
                        && exists|m: int| #![auto] 0 <= m < i
                            && calimero_proposals@[m]@ == r@[j]@,
            forall|m: int| #![auto]
                0 <= m < i && !icp_state.deep_view().contains(calimero_proposals@[m]@)
                    ==> exists|j: int| #![auto] 0 <= j < r@.len()
                        && r@[j]@ == calimero_proposals@[m]@,
        decreases n - i,
    {
        let ghost pre_vec = r;
        let ghost pre_r = r@;
        let missing = !contains_string(icp_state, calimero_proposals[i].as_str());
        if missing {
            let picked = calimero_proposals[i].clone();
            let ghost pickedg = picked;
            r.push(picked);
            proof {
                lemma_vec_push_deep(pre_vec, r, pickedg);
            }
        }
        proof {
            reveal(Seq::filter);
            let t1 = calimero_proposals.deep_view().take(i + 1);
            assert(t1.drop_last() =~= calimero_proposals.deep_view().take(i as int));
            assert(t1.last() == calimero_proposals.deep_view()[i as int]);
            assert(calimero_proposals.deep_view()[i as int] == calimero_proposals@[i as int]@);
            assert(r.deep_view() =~= t1.filter(pred));
            assert forall|m: int| #![auto]
                0 <= m < i + 1 && !icp_state.deep_view().contains(calimero_proposals@[m]@)
                implies exists|j: int| #![auto] 0 <= j < r@.len()
                    && r@[j]@ == calimero_proposals@[m]@ by {
                if m < i {
                    let j = choose|j: int| #![auto]
                        0 <= j < pre_r.len() && pre_r[j]@ == calimero_proposals@[m]@;
                    assert(r@[j]@ == calimero_proposals@[m]@);
                } else {
                    assert(r@[r@.len() - 1]@ == calimero_proposals@[m]@);
                }
            }
            assert forall|j: int| #![auto] 0 <= j < r@.len()
                implies !icp_state.deep_view().contains(r@[j]@)
                    && exists|m: int| #![auto] 0 <= m < i + 1
                        && calimero_proposals@[m]@ == r@[j]@ by {
                if j < pre_r.len() {
                    assert(r@[j] == pre_r[j]);
                    let m = choose|m: int| #![auto]
                        0 <= m < i && calimero_proposals@[m]@ == pre_r[j]@;
                    assert(calimero_proposals@[m]@ == r@[j]@);
                } else {
                    assert(calimero_proposals@[i as int]@ == r@[j]@);
                }
            }
        }
        i = i + 1;
    }
    proof {
        assert(calimero_proposals.deep_view().take(n as int)
            =~= calimero_proposals.deep_view());
        assert forall|k: Seq<char>| #[trigger] r.deep_view().contains(k)
            implies calimero_proposals.deep_view().contains(k)
                && !icp_state.deep_view().contains(k) by {
            let j = choose|j: int| 0 <= j < r.deep_view().len()
                && #[trigger] r.deep_view()[j] == k;
            assert(r@[j]@ == k);
            let m = choose|m: int| #![auto] 0 <= m < n && calimero_proposals@[m]@ == r@[j]@;
            assert(calimero_proposals.deep_view()[m] == k);
        }
        assert forall|k: Seq<char>|
            calimero_proposals.deep_view().contains(k) && !icp_state.deep_view().contains(k)
            implies #[trigger] r.deep_view().contains(k) by {
            let m = choose|m: int| 0 <= m < calimero_proposals.deep_view().len()
                && #[trigger] calimero_proposals.deep_view()[m] == k;
            assert(calimero_proposals@[m]@ == k);
            let j = choose|j: int| #![auto] 0 <= j < r@.len() && r@[j]@ == calimero_proposals@[m]@;
            assert(r.deep_view()[j] == k);
        }
    }
    r
}

} // verus!
