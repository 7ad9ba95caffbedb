//! The library's cross-cutting guarantees, stated and proved once over the
//! contracts and invariants of the note store, the proposal workflow and the
//! version tracker.

use vstd::prelude::*;
use crate::lists::lemma_push_contains;
use crate::notes::{is_shared_with, read_allowed, AppState, EncryptedNote, EncryptedNoteView};
use crate::proposals::{executed_one_action, insert_approval, ActionView};

verus! {

/// Sharing grants access: once a recipient stands in a note's share list —
/// as a successful `share_note` leaves it — that recipient's read of the
/// note is allowed, so `get_note` returns the note to it.
pub proof fn lemma_share_grants_read(pre_note: EncryptedNote, post_note: EncryptedNote, recipient: Seq<char>)
    requires
        post_note.shared_with.deep_view() == pre_note.shared_with.deep_view().push(recipient),
    ensures
        read_allowed(post_note, recipient),
{
    lemma_push_contains(pre_note.shared_with.deep_view(), recipient, recipient);
}

/// Access is denied to everyone else: an identity that is neither the owner
/// nor in the share list may not read, so `get_note` fails `Unauthorized`
/// for it.
pub proof fn lemma_stranger_denied(n: EncryptedNote, who: Seq<char>)
    requires
        who != n.owner@,
        !is_shared_with(n, who),
    ensures
        !read_allowed(n, who),
{
}

/// A note's version history is ordered by timestamp and never runs ahead of
/// the live note: each `update_note` appends exactly one snapshot of the
/// pre-update state, and the order of those snapshots is kept.
pub proof fn lemma_version_history_ordered(s: AppState, id: Seq<char>)
    requires
        s.wf(),
        s.notes@.contains_key(id),
    ensures
        forall|i: int, j: int|
            0 <= i <= j < s.version_history@[id]@.len()
                ==> s.version_history@[id]@[i].timestamp <= s.version_history@[id]@[j].timestamp,
        s.version_history@[id]@.len() > 0
            ==> s.version_history@[id]@.last().timestamp <= s.notes@[id].updated_at,
{
}

/// Approval is idempotent: recording the same identity's approval twice
/// leaves the approval set exactly as after the first time, and any one
/// approval grows the set by at most one.
pub proof fn lemma_approval_idempotent(s: Seq<Seq<char>>, a: Seq<char>)
    ensures
        insert_approval(insert_approval(s, a), a) == insert_approval(s, a),
        insert_approval(s, a).len() <= s.len() + 1,
{
    if !s.contains(a) {
        lemma_push_contains(s, a, a);
        assert(s.push(a).contains(a));
    }
}

/// An executed proposal met its threshold: execution happens only when the
/// approval count has reached `min_approvals`, and the executed mark is
/// never set otherwise.
pub proof fn lemma_executed_met_threshold(s: AppState, pid: Seq<char>)
    requires
        s.wf(),
        s.proposals@.contains_key(pid),
        s.proposals@[pid].executed,
    ensures
        s.proposals@[pid].approvals@.len() >= s.proposals@[pid].min_approvals,
{
}

/// Executing a threshold-approved `CreateNote` proposal stores the note:
/// after the approval that executed it, the note stands in the store under
/// its id with exactly the proposed content, and its owner may read it, so
/// `get_note` by the owner succeeds.
pub proof fn lemma_executed_create_note_readable(
    pre: AppState,
    post: AppState,
    pid: Seq<char>,
    approver: Seq<char>,
    note: EncryptedNoteView,
)
    requires
        executed_one_action(pre, post, pid, approver, ActionView::CreateNote { note }),
    ensures
        post.notes@.contains_key(note.id),
        post.notes@[note.id]@ == note,
        read_allowed(post.notes@[note.id], note.owner),
{
    assert(post.notes@[note.id].owner@ == note.owner);
}

/// Executing a threshold-approved `ShareNote` proposal grants access: after
/// the approval that executed it, the recipient stands in the note's share
/// list, so `get_note` by the recipient succeeds.
pub proof fn lemma_executed_share_note_readable(
    pre: AppState,
    post: AppState,
    pid: Seq<char>,
    approver: Seq<char>,
    note_id: Seq<char>,
    recipient: Seq<char>,
)
    requires
        executed_one_action(
            pre,
            post,
            pid,
            approver,
            ActionView::ShareNote { note_id, recipient },
        ),
    ensures
        post.notes@.contains_key(note_id),
        read_allowed(post.notes@[note_id], recipient),
{
    let sw = pre.notes@[note_id].shared_with.deep_view();
    lemma_push_contains(sw, recipient, recipient);
    assert(post.notes@[note_id].shared_with.deep_view().contains(recipient));
}

/// The permission index never lies: a user holds a reverse permission entry
/// for a note exactly when that live note lists the user as a recipient.
/// Deleting a note therefore removes it from every former recipient's list.
pub proof fn lemma_permission_index_exact(s: AppState, user: Seq<char>, id: Seq<char>)
    requires
        s.wf(),
    ensures
        s.has_perm(user, id) <==> s.notes@.contains_key(id) && is_shared_with(s.notes@[id], user),
{
}

} // verus!
