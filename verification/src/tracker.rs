//! The per-note version tracker: one pair of logical clocks per note (ledger
//! side and collaboration side) plus the pending synchronization directive
//! the clock comparison dictates. At most one directive is kept per note; a
//! newer update replaces an older undelivered one.

use vstd::prelude::*;
use crate::errors::NoteError;
use crate::strmap::StrMap;

verus! {

/// The logical clocks of one note: the ledger-side clock, the
/// collaboration-side clock, and the clock of the last completed sync.
#[derive(Clone, Copy, PartialEq, Eq, Structural, Debug)]
pub struct VersionVector {
    pub icp_version: u64,
    pub calimero_version: u64,
    pub last_sync: u64,
}

/// A queued synchronization directive: push the note's state to the side
/// whose clock is behind. Payload fields are filled in during delivery.
pub enum SyncOperation {
    ICPToCalimero { note_id: String, content: Vec<u8>, timestamp: u64 },
    CalimeroToICP { note_id: String, context_id: String, timestamp: u64 },
}

/// The mathematical shape of a directive.
pub ghost enum SyncOperationView {
    ICPToCalimero { note_id: Seq<char>, content: Seq<u8>, timestamp: u64 },
    CalimeroToICP { note_id: Seq<char>, context_id: Seq<char>, timestamp: u64 },
}

impl View for SyncOperation {
    type V = SyncOperationView;

    open spec fn view(&self) -> SyncOperationView {
        match self {
            SyncOperation::ICPToCalimero { note_id, content, timestamp } =>
                SyncOperationView::ICPToCalimero {
                    note_id: note_id@,
                    content: content@,
                    timestamp: *timestamp,
                },
            SyncOperation::CalimeroToICP { note_id, context_id, timestamp } =>
                SyncOperationView::CalimeroToICP {
                    note_id: note_id@,
                    context_id: context_id@,
                    timestamp: *timestamp,
                },
        }
    }
}

/// The note a directive is for.
pub open spec fn op_note_id(op: SyncOperationView) -> Seq<char> {
    match op {
        SyncOperationView::ICPToCalimero { note_id, .. } => note_id,
        SyncOperationView::CalimeroToICP { note_id, .. } => note_id,
    }
}

impl SyncOperation {
    /// The note this directive is for.
    pub fn note_id(&self) -> (r: &String)
        ensures
            r@ == op_note_id(self@),
    {
        match self {
            SyncOperation::ICPToCalimero { note_id, .. } => note_id,
            SyncOperation::CalimeroToICP { note_id, .. } => note_id,
        }
    }
}

/// Tracks note versions across the two backing stores and the pending sync
/// directives the clock comparison dictates.
pub struct NoteState {
    pub version_map: StrMap<VersionVector>,
    pub pending_syncs: StrMap<SyncOperation>,
}

impl NoteState {
    /// The tracker's invariant: a directive is queued for a note exactly
    /// while its two store clocks disagree, points back at its note, and
    /// pushes toward the side whose clock is behind.
    pub open spec fn wf(&self) -> bool {
        &&& self.version_map.wf()
        &&& self.pending_syncs.wf()
        &&& forall|id: Seq<char>| #[trigger] self.pending_syncs@.contains_key(id)
            <==> self.version_map@.contains_key(id)
                && self.version_map@[id].icp_version != self.version_map@[id].calimero_version
        &&& forall|id: Seq<char>| #[trigger] self.pending_syncs@.contains_key(id)
            ==> op_note_id(self.pending_syncs@[id]@) == id
                && (self.version_map@[id].icp_version > self.version_map@[id].calimero_version
                    ==> self.pending_syncs@[id]@ is ICPToCalimero)
                && (self.version_map@[id].icp_version < self.version_map@[id].calimero_version
                    ==> self.pending_syncs@[id]@ is CalimeroToICP)
    }

    /// A fresh tracker with no notes and nothing pending.
    pub fn new() -> (r: NoteState)
        ensures
            r.wf(),
            r.version_map@ == Map::<Seq<char>, VersionVector>::empty(),
            r.pending_syncs@ == Map::<Seq<char>, SyncOperation>::empty(),
    {
        let r = NoteState { version_map: StrMap::new(), pending_syncs: StrMap::new() };
        proof {
            assert forall|id: Seq<char>| !r.pending_syncs@.contains_key(id) by {}
        }
        r
    }

    /// Requeues or clears the directive for one note after a clock changed:
    /// toward the collaboration side when the ledger clock is ahead, toward
    /// the ledger when behind, cleared when the clocks agree.
    fn schedule_sync(&mut self, note_id: &str, timestamp: u64) -> (r: Result<(), NoteError>)
        requires
            old(self).version_map.wf(),
            old(self).pending_syncs.wf(),
            old(self).version_map@.contains_key(note_id@),
            forall|id: Seq<char>| #[trigger] old(self).pending_syncs@.contains_key(id) && id != note_id@
                ==> old(self).version_map@.contains_key(id)
                    && old(self).version_map@[id].icp_version
                        != old(self).version_map@[id].calimero_version
                    && op_note_id(old(self).pending_syncs@[id]@) == id
                    && (old(self).version_map@[id].icp_version
                        > old(self).version_map@[id].calimero_version
                        ==> old(self).pending_syncs@[id]@ is ICPToCalimero)
                    && (old(self).version_map@[id].icp_version
                        < old(self).version_map@[id].calimero_version
                        ==> old(self).pending_syncs@[id]@ is CalimeroToICP),
            forall|id: Seq<char>| id != note_id@
                && #[trigger] old(self).version_map@.contains_key(id)
                && old(self).version_map@[id].icp_version
                    != old(self).version_map@[id].calimero_version
                ==> old(self).pending_syncs@.contains_key(id),
        ensures
            final(self).wf(),
            r is Ok,
            final(self).version_map == old(self).version_map,
            forall|id: Seq<char>| #![auto] id != note_id@
                ==> (final(self).pending_syncs@.contains_key(id)
                        == old(self).pending_syncs@.contains_key(id))
                    && (old(self).pending_syncs@.contains_key(id)
                        ==> final(self).pending_syncs@[id] == old(self).pending_syncs@[id]),
            final(self).pending_syncs@.contains_key(note_id@)
                <==> old(self).version_map@[note_id@].icp_version
                    != old(self).version_map@[note_id@].calimero_version,
            final(self).pending_syncs@.contains_key(note_id@)
                ==> op_note_id(final(self).pending_syncs@[note_id@]@) == note_id@,
    {
        let v: VersionVector = match self.version_map.get(note_id) {
            Some(v) => *v,
            None => {
                return Err(NoteError::NotFound);
            },
        };
        if v.icp_version > v.calimero_version {
            self.pending_syncs.insert(
                note_id.to_owned(),
                SyncOperation::ICPToCalimero {
                    note_id: note_id.to_owned(),
                    content: Vec::new(),
                    timestamp,
                },
            );
        } else if v.calimero_version > v.icp_version {
            self.pending_syncs.insert(
                note_id.to_owned(),
                SyncOperation::CalimeroToICP {
                    note_id: note_id.to_owned(),
                    context_id: String::new(),
                    timestamp,
                },
            );
        } else {
            self.pending_syncs.remove(note_id);
        }
        Ok(())
    }

    /// Records a ledger-side update for a note, creating its clock pair on
    /// first sight, then requeues or clears its directive.
    pub fn register_icp_update(&mut self, note_id: &str, timestamp: u64) -> (r: Result<
        (),
        NoteError,
    >)
        requires
            old(self).wf(),
        ensures
            final(self).wf(),
            r is Ok,
            final(self).version_map@.dom() == old(self).version_map@.dom().insert(note_id@),
            forall|id: Seq<char>| #![auto] old(self).version_map@.contains_key(id)
                && id != note_id@
                ==> final(self).version_map@[id] == old(self).version_map@[id],
            final(self).version_map@[note_id@].icp_version == timestamp,
            final(self).version_map@[note_id@].calimero_version
                == (if old(self).version_map@.contains_key(note_id@) {
                    old(self).version_map@[note_id@].calimero_version
                } else {
                    0u64
                }),
            final(self).version_map@[note_id@].last_sync
                == (if old(self).version_map@.contains_key(note_id@) {
                    old(self).version_map@[note_id@].last_sync
                } else {
                    0u64
                }),
            forall|id: Seq<char>| #![auto] id != note_id@
                ==> (final(self).pending_syncs@.contains_key(id)
                        == old(self).pending_syncs@.contains_key(id))
                    && (old(self).pending_syncs@.contains_key(id)
                        ==> final(self).pending_syncs@[id] == old(self).pending_syncs@[id]),
            final(self).pending_syncs@.contains_key(note_id@)
                <==> timestamp != final(self).version_map@[note_id@].calimero_version,
    {
        let current: VersionVector = match self.version_map.get(note_id) {
            Some(v) => *v,
            None => VersionVector { icp_version: 0, calimero_version: 0, last_sync: 0 },
        };
        let nv = VersionVector {
            icp_version: timestamp,
            calimero_version: current.calimero_version,
            last_sync: current.last_sync,
        };
        self.version_map.insert(note_id.to_owned(), nv);
        proof {
            assert(self.version_map@.dom() =~= old(self).version_map@.dom().insert(note_id@));
        }
        self.schedule_sync(note_id, timestamp)
    }

    /// Records a collaboration-side update for a note, creating its clock
    /// pair on first sight, then requeues or clears its directive.
    pub fn register_calimero_update(&mut self, note_id: &str, timestamp: u64) -> (r: Result<
        (),
        NoteError,
    >)
        requires
            old(self).wf(),
        ensures
            final(self).wf(),
            r is Ok,
            final(self).version_map@.dom() == old(self).version_map@.dom().insert(note_id@),
            forall|id: Seq<char>| #![auto] old(self).version_map@.contains_key(id)
                && id != note_id@
                ==> final(self).version_map@[id] == old(self).version_map@[id],
            final(self).version_map@[note_id@].calimero_version == timestamp,
            final(self).version_map@[note_id@].icp_version
                == (if old(self).version_map@.contains_key(note_id@) {
                    old(self).version_map@[note_id@].icp_version
                } else {
                    0u64
                }),
            final(self).version_map@[note_id@].last_sync
                == (if old(self).version_map@.contains_key(note_id@) {
                    old(self).version_map@[note_id@].last_sync
                } else {
                    0u64
                }),
            forall|id: Seq<char>| #![auto] id != note_id@
                ==> (final(self).pending_syncs@.contains_key(id)
                        == old(self).pending_syncs@.contains_key(id))
                    && (old(self).pending_syncs@.contains_key(id)
                        ==> final(self).pending_syncs@[id] == old(self).pending_syncs@[id]),
            final(self).pending_syncs@.contains_key(note_id@)
                <==> timestamp != final(self).version_map@[note_id@].icp_version,
    {
        let current: VersionVector = match self.version_map.get(note_id) {
            Some(v) => *v,
            None => VersionVector { icp_version: 0, calimero_version: 0, last_sync: 0 },
        };
        let nv = VersionVector {
            icp_version: current.icp_version,
            calimero_version: timestamp,
            last_sync: current.last_sync,
        };
        self.version_map.insert(note_id.to_owned(), nv);
        proof {
            assert(self.version_map@.dom() =~= old(self).version_map@.dom().insert(note_id@));
        }
        self.schedule_sync(note_id, timestamp)
    }

    /// The clock pair of one tracked note.
    pub fn get_version(&self, note_id: &str) -> (r: Option<VersionVector>)
        requires
            self.wf(),
        ensures
            r is Some <==> self.version_map@.contains_key(note_id@),
            r is Some ==> r->0 == self.version_map@[note_id@],
    {
        match self.version_map.get(note_id) {
            Some(v) => Some(*v),
            None => None,
        }
    }

    /// The queued directives, one per diverged note.
    pub fn get_pending_syncs(&self) -> (r: Vec<&SyncOperation>)
        requires
            self.wf(),
        ensures
            forall|j: int| #![auto] 0 <= j < r@.len()
                ==> self.pending_syncs@.contains_key(op_note_id(r@[j]@))
                    && *r@[j] == self.pending_syncs@[op_note_id(r@[j]@)],
            forall|id: Seq<char>| #[trigger] self.pending_syncs@.contains_key(id)
                ==> exists|j: int| 0 <= j < r@.len() && op_note_id(r@[j]@) == id,
            forall|a: int, b: int| 0 <= a < b < r@.len()
                ==> op_note_id(r@[a]@) != op_note_id(r@[b]@),
    {
        let n = self.pending_syncs.len();
        let mut r: Vec<&SyncOperation> = Vec::new();
        let mut i: usize = 0;
        proof {
            self.pending_syncs.lemma_enumeration();
        }
        while i < n
            invariant
                self.wf(),
                n == self.pending_syncs.keys_seq().len(),
                i <= n,
                self.pending_syncs.keys_seq().len() == self.pending_syncs.values_seq().len(),
                forall|m: int| #![trigger self.pending_syncs.keys_seq()[m]]
                    0 <= m < n
                        ==> self.pending_syncs@.contains_key(self.pending_syncs.keys_seq()[m])
                            && self.pending_syncs@[self.pending_syncs.keys_seq()[m]]
                                == self.pending_syncs.values_seq()[m],
                forall|id: Seq<char>| #[trigger] self.pending_syncs@.contains_key(id)
                    ==> exists|m: int| 0 <= m < n && self.pending_syncs.keys_seq()[m] == id,
                forall|m: int, m2: int| 0 <= m < m2 < n
                    ==> self.pending_syncs.keys_seq()[m] != self.pending_syncs.keys_seq()[m2],
                r@.len() == i,
                forall|j: int| #![auto] 0 <= j < i
                    ==> op_note_id(r@[j]@) == self.pending_syncs.keys_seq()[j]
                        && *r@[j] == self.pending_syncs@[self.pending_syncs.keys_seq()[j]],
            decreases n - i,
        {
            let op = self.pending_syncs.value_at(i);
            proof {
                let key = self.pending_syncs.keys_seq()[i as int];
                assert(self.pending_syncs@.contains_key(key));
                assert(op_note_id(op@) == key);
            }
            r.push(op);
            i = i + 1;
        }
        proof {
            assert forall|id: Seq<char>| #[trigger] self.pending_syncs@.contains_key(id)
                implies exists|j: int| 0 <= j < r@.len() && op_note_id(r@[j]@) == id by {
                let m = choose|m: int|
                    0 <= m < n && #[trigger] self.pending_syncs.keys_seq()[m] == id;
                assert(op_note_id(r@[m]@) == id);
            }
            assert forall|a: int, b: int| 0 <= a < b < r@.len()
                implies op_note_id(r@[a]@) != op_note_id(r@[b]@) by {
                assert(op_note_id(r@[a]@) == self.pending_syncs.keys_seq()[a]);
                assert(op_note_id(r@[b]@) == self.pending_syncs.keys_seq()[b]);
            }
        }
        r
    }

    /// Marks a note's sync as delivered at `timestamp`: all three clocks
    /// converge to it and the pending directive is dropped. A note the
    /// tracker has never seen keeps no clocks, but any stray directive for
    /// it is dropped all the same.
    pub fn mark_sync_complete(&mut self, note_id: &str, timestamp: u64)
        requires
            old(self).wf(),
        ensures
            final(self).wf(),
            final(self).version_map@.dom() == old(self).version_map@.dom(),
            forall|id: Seq<char>| #![auto] old(self).version_map@.contains_key(id)
                && id != note_id@
                ==> final(self).version_map@[id] == old(self).version_map@[id],
            old(self).version_map@.contains_key(note_id@)
                ==> final(self).version_map@[note_id@] == (VersionVector {
                    icp_version: timestamp,
                    calimero_version: timestamp,
                    last_sync: timestamp,
                }),
            !final(self).pending_syncs@.contains_key(note_id@),
            forall|id: Seq<char>| #![auto] id != note_id@
                ==> (final(self).pending_syncs@.contains_key(id)
                        == old(self).pending_syncs@.contains_key(id))
                    && (old(self).pending_syncs@.contains_key(id)
                        ==> final(self).pending_syncs@[id] == old(self).pending_syncs@[id]),
    {
        if self.version_map.contains_key(note_id) {
            self.version_map.insert(
                note_id.to_owned(),
                VersionVector {
                    icp_version: timestamp,
                    calimero_version: timestamp,
                    last_sync: timestamp,
                },
            );
        }
        self.pending_syncs.remove(note_id);
        proof {
            assert(self.version_map@.dom() =~= old(self).version_map@.dom());
        }
    }
}

/// Convergence: while no directive is pending for a note the tracker knows,
/// its two store clocks agree — so once the sync engine has drained every
/// pending directive, and no new update has arrived meanwhile, the clocks of
/// every tracked note are equal.
pub proof fn lemma_drained_tracker_is_converged(s: NoteState, id: Seq<char>)
    requires
        s.wf(),
        s.version_map@.contains_key(id),
        !s.pending_syncs@.contains_key(id),
    ensures
        s.version_map@[id].icp_version == s.version_map@[id].calimero_version,
{
}

} // verus!
