//! The note store: encrypted notes with owner/recipient authorization, an
//! append-only version history per note, a reverse permission index, and
//! per-recipient key-share records, all held in one explicitly owned state.

use vstd::prelude::*;
use crate::clock::{clamp_timestamp, now_secs};
use crate::codec::{dec_string, u64_to_dec_string};
use crate::errors::NoteError;
use crate::keyshare::{derive_key_share, key_share_bytes};
use crate::lists::{clone_bytes, clone_string_vec, contains_string, lemma_push_contains, lemma_vec_push_deep, no_dups, without_string};
use crate::proposals::{proposal_wf, Proposal};
use crate::strmap::StrMap;

verus! {

/// The mathematical shape of a note's metadata.
pub ghost struct NoteMetadataView {
    pub title: Seq<char>,
    pub tags: Seq<Seq<char>>,
    pub is_pinned: bool,
    pub encryption_version: u32,
}

/// A note's caller-supplied metadata.
#[derive(Debug)]
pub struct NoteMetadata {
    pub title: String,
    pub tags: Vec<String>,
    pub is_pinned: bool,
    pub encryption_version: u32,
}

impl View for NoteMetadata {
    type V = NoteMetadataView;

    open spec fn view(&self) -> NoteMetadataView {
        NoteMetadataView {
            title: self.title@,
            tags: self.tags.deep_view(),
            is_pinned: self.is_pinned,
            encryption_version: self.encryption_version,
        }
    }
}

impl Clone for NoteMetadata {
    fn clone(&self) -> (r: Self)
        ensures
            r@ == self@,
    {
        NoteMetadata {
            title: self.title.clone(),
            tags: clone_string_vec(&self.tags),
            is_pinned: self.is_pinned,
            encryption_version: self.encryption_version,
        }
    }
}

/// The mathematical shape of a stored note.
pub ghost struct EncryptedNoteView {
    pub id: Seq<char>,
    pub encrypted_content: Seq<u8>,
    pub metadata: NoteMetadataView,
    pub owner: Seq<char>,
    pub shared_with: Seq<Seq<char>>,
    pub created_at: u64,
    pub updated_at: u64,
}

/// A note as the stores hold it: content is opaque ciphertext, identities
/// are plain strings.
#[derive(Debug)]
pub struct EncryptedNote {
    pub id: String,
    pub encrypted_content: Vec<u8>,
    pub metadata: NoteMetadata,
    pub owner: String,
    pub shared_with: Vec<String>,
    pub created_at: u64,
    pub updated_at: u64,
}

impl View for EncryptedNote {
    type V = EncryptedNoteView;

    open spec fn view(&self) -> EncryptedNoteView {
        EncryptedNoteView {
            id: self.id@,
            encrypted_content: self.encrypted_content@,
            metadata: self.metadata@,
            owner: self.owner@,
            shared_with: self.shared_with.deep_view(),
            created_at: self.created_at,
            updated_at: self.updated_at,
        }
    }
}

impl DeepView for EncryptedNote {
    type V = EncryptedNoteView;

    open spec fn deep_view(&self) -> EncryptedNoteView {
        self.view()
    }
}

impl Clone for EncryptedNote {
    fn clone(&self) -> (r: Self)
        ensures
            r@ == self@,
    {
        EncryptedNote {
            id: self.id.clone(),
            encrypted_content: clone_bytes(&self.encrypted_content),
            metadata: self.metadata.clone(),
            owner: self.owner.clone(),
            shared_with: clone_string_vec(&self.shared_with),
            created_at: self.created_at,
            updated_at: self.updated_at,
        }
    }
}

/// The mathematical shape of a history entry.
pub ghost struct NoteVersionView {
    pub version_id: Seq<char>,
    pub encrypted_content: Seq<u8>,
    pub metadata: NoteMetadataView,
    pub timestamp: u64,
}

/// One immutable snapshot of a note's pre-update state.
#[derive(Debug)]
pub struct NoteVersion {
    pub version_id: String,
    pub encrypted_content: Vec<u8>,
    pub metadata: NoteMetadata,
    pub timestamp: u64,
}

impl View for NoteVersion {
    type V = NoteVersionView;

    open spec fn view(&self) -> NoteVersionView {
        NoteVersionView {
            version_id: self.version_id@,
            encrypted_content: self.encrypted_content@,
            metadata: self.metadata@,
            timestamp: self.timestamp,
        }
    }
}

impl DeepView for NoteVersion {
    type V = NoteVersionView;

    open spec fn deep_view(&self) -> NoteVersionView {
        self.view()
    }
}

impl Clone for NoteVersion {
    fn clone(&self) -> (r: Self)
        ensures
            r@ == self@,
    {
        NoteVersion {
            version_id: self.version_id.clone(),
            encrypted_content: clone_bytes(&self.encrypted_content),
            metadata: self.metadata.clone(),
            timestamp: self.timestamp,
        }
    }
}

/// A message attached to a proposal's discussion thread.
#[derive(Debug)]
pub struct Message {
    pub id: String,
    pub proposal_id: String,
    pub author: String,
    pub text: String,
    pub created_at: String,
}

/// The mathematical shape of a message.
pub ghost struct MessageView {
    pub id: Seq<char>,
    pub proposal_id: Seq<char>,
    pub author: Seq<char>,
    pub text: Seq<char>,
    pub created_at: Seq<char>,
}

impl View for Message {
    type V = MessageView;

    open spec fn view(&self) -> MessageView {
        MessageView {
            id: self.id@,
            proposal_id: self.proposal_id@,
            author: self.author@,
            text: self.text@,
            created_at: self.created_at@,
        }
    }
}

impl Clone for Message {
    fn clone(&self) -> (r: Self)
        ensures
            r@ == self@,
    {
        Message {
            id: self.id.clone(),
            proposal_id: self.proposal_id.clone(),
            author: self.author.clone(),
            text: self.text.clone(),
            created_at: self.created_at.clone(),
        }
    }
}

/// One per-recipient key-share record; the content is opaque key material
/// only the recipient can use.
#[derive(Debug)]
pub struct SharedKey {
    pub note_id: String,
    pub recipient: String,
    pub encrypted_key: Vec<u8>,
}

/// The mathematical shape of a key-share record.
pub ghost struct SharedKeyView {
    pub note_id: Seq<char>,
    pub recipient: Seq<char>,
    pub encrypted_key: Seq<u8>,
}

impl View for SharedKey {
    type V = SharedKeyView;

    open spec fn view(&self) -> SharedKeyView {
        SharedKeyView {
            note_id: self.note_id@,
            recipient: self.recipient@,
            encrypted_key: self.encrypted_key@,
        }
    }
}

impl DeepView for SharedKey {
    type V = SharedKeyView;

    open spec fn deep_view(&self) -> SharedKeyView {
        self.view()
    }
}

impl Clone for SharedKey {
    fn clone(&self) -> (r: Self)
        ensures
            r@ == self@,
    {
        SharedKey {
            note_id: self.note_id.clone(),
            recipient: self.recipient.clone(),
            encrypted_key: clone_bytes(&self.encrypted_key),
        }
    }
}

/// A copy of a key-share list.
fn clone_keys(v: &Vec<SharedKey>) -> (r: Vec<SharedKey>)
    ensures
        r@.len() == v@.len(),
        forall|j: int| 0 <= j < v@.len() ==> #[trigger] r@[j]@ == v@[j]@,
{
    let mut r: Vec<SharedKey> = Vec::new();
    let n = v.len();
    let mut i: usize = 0;
    while i < n
        invariant
            n == v@.len(),
            i <= n,
            r@.len() == i,
            forall|j: int| 0 <= j < i ==> #[trigger] r@[j]@ == v@[j]@,
        decreases n - i,
    {
        r.push(v[i].clone());
        i = i + 1;
    }
    r
}

/// A copy of a version history.
fn clone_versions(v: &Vec<NoteVersion>) -> (r: Vec<NoteVersion>)
    ensures
        r@.len() == v@.len(),
        forall|j: int| 0 <= j < v@.len() ==> #[trigger] r@[j]@ == v@[j]@,
{
    let mut r: Vec<NoteVersion> = Vec::new();
    let n = v.len();
    let mut i: usize = 0;
    while i < n
        invariant
            n == v@.len(),
            i <= n,
            r@.len() == i,
            forall|j: int| 0 <= j < i ==> #[trigger] r@[j]@ == v@[j]@,
        decreases n - i,
    {
        r.push(v[i].clone());
        i = i + 1;
    }
    r
}

/// A domain event, recorded in order of emission for outside observers.
pub enum Event {
    ProposalCreated { id: String },
    ApprovedProposal { id: String },
    NoteCreated { id: String },
    NoteUpdated { id: String },
    NoteShared { id: String, with: String },
    NoteDeleted { id: String },
}

/// The mathematical shape of a domain event.
pub ghost enum EventView {
    ProposalCreated { id: Seq<char> },
    ApprovedProposal { id: Seq<char> },
    NoteCreated { id: Seq<char> },
    NoteUpdated { id: Seq<char> },
    NoteShared { id: Seq<char>, with: Seq<char> },
    NoteDeleted { id: Seq<char> },
}

impl View for Event {
    type V = EventView;

    open spec fn view(&self) -> EventView {
        match self {
            Event::ProposalCreated { id } => EventView::ProposalCreated { id: id@ },
            Event::ApprovedProposal { id } => EventView::ApprovedProposal { id: id@ },
            Event::NoteCreated { id } => EventView::NoteCreated { id: id@ },
            Event::NoteUpdated { id } => EventView::NoteUpdated { id: id@ },
            Event::NoteShared { id, with } => EventView::NoteShared { id: id@, with: with@ },
            Event::NoteDeleted { id } => EventView::NoteDeleted { id: id@ },
        }
    }
}

impl DeepView for Event {
    type V = EventView;

    open spec fn deep_view(&self) -> EventView {
        self.view()
    }
}

/// Whether `who` is among the note's recipients.
pub open spec fn is_shared_with(n: EncryptedNote, who: Seq<char>) -> bool {
    n.shared_with.deep_view().contains(who)
}

/// Whether `who` may read the note: its owner or any recipient.
pub open spec fn read_allowed(n: EncryptedNote, who: Seq<char>) -> bool {
    n.owner@ == who || is_shared_with(n, who)
}

/// A stored note is well-formed under its key: the id field matches the key,
/// the owner is never listed as a recipient, and no recipient is listed twice.
pub open spec fn note_wf(n: EncryptedNote, id: Seq<char>) -> bool {
    &&& n.id@ == id
    &&& !is_shared_with(n, n.owner@)
    &&& no_dups(n.shared_with.deep_view())
}

/// A version history is ordered by timestamp, and never runs ahead of the
/// live note's last update.
pub open spec fn history_wf(h: Seq<NoteVersion>, updated_at: u64) -> bool {
    &&& forall|i: int, j: int| 0 <= i <= j < h.len() ==> h[i].timestamp <= h[j].timestamp
    &&& h.len() > 0 ==> h[h.len() - 1].timestamp <= updated_at
}

/// The key-share records of a note mirror its recipient list, position by
/// position, each share bound to its recipient.
pub open spec fn keys_aligned(ks: Seq<SharedKey>, n: EncryptedNote) -> bool {
    &&& ks.len() == n.shared_with@.len()
    &&& forall|i: int| 0 <= i < ks.len() ==> (#[trigger] ks[i]).note_id@ == n.id@
        && ks[i].recipient@ == n.shared_with@[i]@
        && ks[i].encrypted_key@ == key_share_bytes(n.id@, n.shared_with@[i]@)
}

/// The whole application state: notes and their histories on the ledger
/// side, proposals and messages on the collaboration side, the reverse
/// permission index, key shares, configuration, and the event log.
pub struct AppState {
    pub notes: StrMap<EncryptedNote>,
    pub version_history: StrMap<Vec<NoteVersion>>,
    pub user_permissions: StrMap<Vec<String>>,
    pub shared_keys: StrMap<Vec<SharedKey>>,
    pub messages: StrMap<Vec<Message>>,
    pub proposals: StrMap<Proposal>,
    pub context_values: StrMap<String>,
    pub min_approvals: u32,
    pub active_proposals_limit: u32,
    pub events: Vec<Event>,
}

impl AppState {
    /// Whether `user` holds a reverse-index permission entry for `id`.
    pub open spec fn has_perm(&self, user: Seq<char>, id: Seq<char>) -> bool {
        self.user_permissions@.contains_key(user)
            && self.user_permissions@[user].deep_view().contains(id)
    }

    /// The state's invariant. Histories and key shares exist exactly for
    /// live notes; each note, proposal, history and key-share list is
    /// well-formed; and the reverse permission index lists exactly the
    /// recipients of live notes.
    pub open spec fn wf(&self) -> bool {
        &&& self.notes.wf()
        &&& self.version_history.wf()
        &&& self.user_permissions.wf()
        &&& self.shared_keys.wf()
        &&& self.messages.wf()
        &&& self.proposals.wf()
        &&& self.context_values.wf()
        &&& self.version_history@.dom() == self.notes@.dom()
        &&& self.shared_keys@.dom() == self.notes@.dom()
        &&& forall|id: Seq<char>| #[trigger] self.notes@.contains_key(id)
            ==> note_wf(self.notes@[id], id)
        &&& forall|id: Seq<char>| #[trigger] self.notes@.contains_key(id)
            ==> history_wf(self.version_history@[id]@, self.notes@[id].updated_at)
        &&& forall|id: Seq<char>| #[trigger] self.notes@.contains_key(id)
            ==> keys_aligned(self.shared_keys@[id]@, self.notes@[id])
        &&& forall|u: Seq<char>| #[trigger] self.user_permissions@.contains_key(u)
            ==> no_dups(self.user_permissions@[u].deep_view())
        &&& forall|u: Seq<char>, id: Seq<char>|
            #![trigger self.has_perm(u, id)]
            #![trigger is_shared_with(self.notes@[id], u)]
            self.has_perm(u, id)
                <==> self.notes@.contains_key(id) && is_shared_with(self.notes@[id], u)
        &&& forall|pid: Seq<char>| #[trigger] self.proposals@.contains_key(pid)
            ==> proposal_wf(self.proposals@[pid], pid)
    }

    /// A fresh, empty state. The approval threshold starts at one; a
    /// `SetNumApprovals` action raises it.
    pub fn init() -> (r: AppState)
        ensures
            r.wf(),
            r.notes@ == Map::<Seq<char>, EncryptedNote>::empty(),
            r.version_history@ == Map::<Seq<char>, Vec<NoteVersion>>::empty(),
            r.user_permissions@ == Map::<Seq<char>, Vec<String>>::empty(),
            r.shared_keys@ == Map::<Seq<char>, Vec<SharedKey>>::empty(),
            r.messages@ == Map::<Seq<char>, Vec<Message>>::empty(),
            r.proposals@ == Map::<Seq<char>, Proposal>::empty(),
            r.context_values@ == Map::<Seq<char>, String>::empty(),
            r.min_approvals == 1,
            r.active_proposals_limit == 10,
            r.events@.len() == 0,
    {
        AppState {
            notes: StrMap::new(),
            version_history: StrMap::new(),
            user_permissions: StrMap::new(),
            shared_keys: StrMap::new(),
            messages: StrMap::new(),
            proposals: StrMap::new(),
            context_values: StrMap::new(),
            min_approvals: 1,
            active_proposals_limit: 10,
            events: Vec::new(),
        }
    }

    /// Reads a note. Succeeds exactly for the owner and the recipients;
    /// an unknown id is `NotFound`, any other caller is `Unauthorized`.
    pub fn get_note(&self, caller: &str, id: &str) -> (r: Result<&EncryptedNote, NoteError>)
        requires
            self.wf(),
        ensures
            r is Ok <==> self.notes@.contains_key(id@) && read_allowed(self.notes@[id@], caller@),
            r is Ok ==> *r->Ok_0 == self.notes@[id@],
            !self.notes@.contains_key(id@) ==> r == Err::<&EncryptedNote, NoteError>(
                NoteError::NotFound,
            ),
            self.notes@.contains_key(id@) && !read_allowed(self.notes@[id@], caller@)
                ==> r == Err::<&EncryptedNote, NoteError>(NoteError::Unauthorized),
    {
        match self.notes.get(id) {
            None => Err(NoteError::NotFound),
            Some(note) => {
                let cs: String = caller.to_owned();
                if note.owner == cs || contains_string(&note.shared_with, caller) {
                    Ok(note)
                } else {
                    Err(NoteError::Unauthorized)
                }
            },
        }
    }

    /// Creates a note under its caller-supplied id, with an empty history
    /// and no key shares. The note must arrive unshared: sharing goes
    /// through `share_note`, which keeps the permission index aligned.
    pub fn create_note(&mut self, note: EncryptedNote) -> (r: Result<(), NoteError>)
        requires
            old(self).wf(),
        ensures
            final(self).wf(),
            r is Ok <==> !old(self).notes@.contains_key(note.id@) && note.shared_with@.len() == 0,
            old(self).notes@.contains_key(note.id@) ==> r == Err::<(), NoteError>(
                NoteError::AlreadyExists,
            ),
            !old(self).notes@.contains_key(note.id@) && note.shared_with@.len() > 0
                ==> r == Err::<(), NoteError>(NoteError::InvalidAction),
            r is Err ==> *final(self) == *old(self),
            r is Ok ==> final(self).notes@ == old(self).notes@.insert(note.id@, note),
            r is Ok ==> final(self).version_history@.dom() == final(self).notes@.dom()
                && final(self).version_history@[note.id@]@ =~= Seq::<NoteVersion>::empty()
                && (forall|k: Seq<char>| #![auto] old(self).version_history@.contains_key(k)
                    ==> final(self).version_history@[k] == old(self).version_history@[k]),
            r is Ok ==> final(self).shared_keys@.dom() == final(self).notes@.dom()
                && final(self).shared_keys@[note.id@]@ =~= Seq::<SharedKey>::empty()
                && (forall|k: Seq<char>| #![auto] old(self).shared_keys@.contains_key(k)
                    ==> final(self).shared_keys@[k] == old(self).shared_keys@[k]),
            final(self).user_permissions == old(self).user_permissions,
            final(self).messages == old(self).messages,
            final(self).proposals == old(self).proposals,
            final(self).context_values == old(self).context_values,
            final(self).min_approvals == old(self).min_approvals,
            final(self).active_proposals_limit == old(self).active_proposals_limit,
            r is Ok ==> final(self).events.deep_view() == old(self).events.deep_view().push(
                EventView::NoteCreated { id: note.id@ },
            ),
            r is Err ==> final(self).events.deep_view() == old(self).events.deep_view(),
    {
        if self.notes.contains_key(note.id.as_str()) {
            return Err(NoteError::AlreadyExists);
        }
        if note.shared_with.len() > 0 {
            return Err(NoteError::InvalidAction);
        }
        let id = note.id.clone();
        let ghost idv = note.id@;
        self.notes.insert(id.clone(), note);
        self.version_history.insert(id.clone(), Vec::new());
        self.shared_keys.insert(id.clone(), Vec::new());
        let ghost pre_events_vec = self.events;
        let ev = Event::NoteCreated { id };
        let ghost evg = ev;
        self.events.push(ev);
        proof {
            lemma_vec_push_deep(pre_events_vec, self.events, evg);
            assert(evg@ == (EventView::NoteCreated { id: idv }));
            assert(final(self).wf()) by {
                let post = *self;
                assert forall|u: Seq<char>, id2: Seq<char>|
                    #![trigger post.has_perm(u, id2)]
                    #![trigger is_shared_with(post.notes@[id2], u)]
                    post.has_perm(u, id2)
                        <==> post.notes@.contains_key(id2) && is_shared_with(post.notes@[id2], u) by {
                    if id2 == idv {
                        assert(!old(self).notes@.contains_key(id2));
                        assert(!old(self).has_perm(u, id2));
                    } else {
                        assert(post.has_perm(u, id2) == old(self).has_perm(u, id2));
                    }
                }
            }
        }
        Ok(())
    }

    /// Shares a note with a recipient: only the owner may share, a recipient
    /// is added at most once, and the owner's own access is never recorded
    /// twice. Adds the recipient, a reverse permission entry, and a
    /// key-share record bound to the recipient, as one atomic step.
    pub fn share_note(&mut self, caller: &str, id: &str, recipient: &str) -> (r: Result<
        (),
        NoteError,
    >)
        requires
            old(self).wf(),
        ensures
            final(self).wf(),
            r is Ok <==> old(self).notes@.contains_key(id@)
                && old(self).notes@[id@].owner@ == caller@
                && !is_shared_with(old(self).notes@[id@], recipient@)
                && recipient@ != caller@,
            !old(self).notes@.contains_key(id@) ==> r == Err::<(), NoteError>(NoteError::NotFound),
            old(self).notes@.contains_key(id@) && old(self).notes@[id@].owner@ != caller@
                ==> r == Err::<(), NoteError>(NoteError::Unauthorized),
            old(self).notes@.contains_key(id@) && old(self).notes@[id@].owner@ == caller@
                && (is_shared_with(old(self).notes@[id@], recipient@) || recipient@ == caller@)
                ==> r == Err::<(), NoteError>(NoteError::AlreadyShared),
            r is Err ==> *final(self) == *old(self),
            r is Ok ==> final(self).notes@.dom() == old(self).notes@.dom()
                && (forall|k: Seq<char>| #![auto] old(self).notes@.contains_key(k) && k != id@
                    ==> final(self).notes@[k] == old(self).notes@[k])
                && final(self).notes@[id@].shared_with.deep_view()
                    == old(self).notes@[id@].shared_with.deep_view().push(recipient@)
                && final(self).notes@[id@].id@ == old(self).notes@[id@].id@
                && final(self).notes@[id@].owner@ == old(self).notes@[id@].owner@
                && final(self).notes@[id@].encrypted_content@
                    == old(self).notes@[id@].encrypted_content@
                && final(self).notes@[id@].metadata@ == old(self).notes@[id@].metadata@
                && final(self).notes@[id@].created_at == old(self).notes@[id@].created_at
                && final(self).notes@[id@].updated_at == old(self).notes@[id@].updated_at,
            r is Ok ==> (forall|u: Seq<char>, k: Seq<char>|
                #![trigger final(self).has_perm(u, k)]
                #![trigger old(self).has_perm(u, k)]
                final(self).has_perm(u, k)
                    <==> old(self).has_perm(u, k) || (u == recipient@ && k == id@)),
            r is Ok ==> final(self).shared_keys@.dom() == old(self).shared_keys@.dom()
                && (forall|k: Seq<char>| #![auto] old(self).shared_keys@.contains_key(k) && k != id@
                    ==> final(self).shared_keys@[k] == old(self).shared_keys@[k])
                && final(self).shared_keys@[id@]@.len() == old(self).shared_keys@[id@]@.len() + 1
                && final(self).shared_keys@[id@]@.last()@ == (SharedKeyView {
                    note_id: id@,
                    recipient: recipient@,
                    encrypted_key: key_share_bytes(id@, recipient@),
                })
                && (forall|j: int| #![auto] 0 <= j < old(self).shared_keys@[id@]@.len()
                    ==> final(self).shared_keys@[id@]@[j]@ == old(self).shared_keys@[id@]@[j]@),
            final(self).version_history == old(self).version_history,
            final(self).messages == old(self).messages,
            final(self).proposals == old(self).proposals,
            final(self).context_values == old(self).context_values,
            final(self).min_approvals == old(self).min_approvals,
            final(self).active_proposals_limit == old(self).active_proposals_limit,
            r is Ok ==> final(self).events.deep_view() == old(self).events.deep_view().push(
                EventView::NoteShared { id: id@, with: recipient@ },
            ),
            r is Err ==> final(self).events.deep_view() == old(self).events.deep_view(),
    {
        let n = match self.notes.get(id) {
            Some(n) => n,
            None => {
                return Err(NoteError::NotFound);
            },
        };
        let cs: String = caller.to_owned();
        if !(n.owner == cs) {
            return Err(NoteError::Unauthorized);
        }
        if contains_string(&n.shared_with, recipient) {
            return Err(NoteError::AlreadyShared);
        }
        let rs: String = recipient.to_owned();
        if n.owner == rs {
            return Err(NoteError::AlreadyShared);
        }

        let mut new_shared = clone_string_vec(&n.shared_with);
        new_shared.push(rs);
        let new_note = EncryptedNote {
            id: n.id.clone(),
            encrypted_content: clone_bytes(&n.encrypted_content),
            metadata: n.metadata.clone(),
            owner: n.owner.clone(),
            shared_with: new_shared,
            created_at: n.created_at,
            updated_at: n.updated_at,
        };
        let ghost idv = id@;
        let ghost pre = *self;
        let ghost pre_note = self.notes@[idv];

        let mut key_list = match self.shared_keys.get(id) {
            Some(ks) => clone_keys(ks),
            None => Vec::new(),
        };
        key_list.push(SharedKey {
            note_id: new_note.id.clone(),
            recipient: recipient.to_owned(),
            encrypted_key: derive_key_share(id, recipient),
        });

        let mut perm_list = match self.user_permissions.get(recipient) {
            Some(l) => clone_string_vec(l),
            None => Vec::new(),
        };
        perm_list.push(new_note.id.clone());
        let ghost perm_list_v = perm_list.deep_view();

        let idk = new_note.id.clone();
        self.notes.insert(idk.clone(), new_note);
        self.shared_keys.insert(idk.clone(), key_list);
        self.user_permissions.insert(recipient.to_owned(), perm_list);
        let ghost pre_events_vec = self.events;
        let ev = Event::NoteShared { id: idk, with: recipient.to_owned() };
        let ghost evg = ev;
        self.events.push(ev);

        proof {
            let post = *self;
            lemma_vec_push_deep(pre_events_vec, self.events, evg);
            assert(evg@ == (EventView::NoteShared { id: idv, with: recipient@ }));
            assert(post.notes@[idv].shared_with.deep_view()
                =~= pre_note.shared_with.deep_view().push(recipient@));
            // the recipient held no entry for this note before
            assert(!pre.has_perm(recipient@, idv));
            assert(perm_list_v =~= (if pre.user_permissions@.contains_key(recipient@) {
                pre.user_permissions@[recipient@].deep_view()
            } else {
                Seq::<Seq<char>>::empty()
            }).push(idv));
            // the permission iff after the step
            assert forall|u: Seq<char>, k: Seq<char>|
                #![trigger post.has_perm(u, k)]
                #![trigger pre.has_perm(u, k)]
                post.has_perm(u, k) <==> pre.has_perm(u, k) || (u == recipient@ && k == idv) by {
                if u == recipient@ {
                    lemma_push_contains(
                        if pre.user_permissions@.contains_key(recipient@) {
                            pre.user_permissions@[recipient@].deep_view()
                        } else {
                            Seq::<Seq<char>>::empty()
                        },
                        idv,
                        k,
                    );
                }
            }
            assert(post.notes@.dom() =~= pre.notes@.dom());
            assert(post.shared_keys@.dom() =~= pre.shared_keys@.dom());
            let sw = pre_note.shared_with.deep_view();
            let sw1 = post.notes@[idv].shared_with.deep_view();
            assert(note_wf(post.notes@[idv], idv)) by {
                lemma_push_contains(sw, recipient@, pre_note.owner@);
                assert(post.notes@[idv].owner@ == pre_note.owner@);
                assert forall|a: int, b: int| 0 <= a < b < sw1.len()
                    implies sw1[a] != sw1[b] by {
                    if b == sw.len() {
                        assert(sw1[a] == sw[a]);
                        assert(sw.contains(sw[a])) by {
                            assert(sw[a] == sw[a]);
                        }
                        assert(sw1[b] == recipient@);
                    } else {
                        assert(sw1[a] == sw[a]);
                        assert(sw1[b] == sw[b]);
                    }
                }
            }
            assert(keys_aligned(post.shared_keys@[idv]@, post.notes@[idv])) by {
                let ks0 = pre.shared_keys@[idv]@;
                let ks1 = post.shared_keys@[idv]@;
                assert(keys_aligned(ks0, pre_note));
                assert(ks1.len() == sw1.len());
                assert forall|i: int| 0 <= i < ks1.len()
                    implies (#[trigger] ks1[i]).note_id@ == post.notes@[idv].id@
                        && ks1[i].recipient@ == post.notes@[idv].shared_with@[i]@
                        && ks1[i].encrypted_key@ == key_share_bytes(
                            post.notes@[idv].id@,
                            post.notes@[idv].shared_with@[i]@,
                        ) by {
                    assert(post.notes@[idv].shared_with@[i]@ == sw1[i]);
                    if i < ks0.len() {
                        assert(ks1[i]@ == ks0[i]@);
                        assert(sw1[i] == sw[i]);
                        assert(sw[i] == pre_note.shared_with@[i]@);
                    } else {
                        assert(sw1[i] == recipient@);
                    }
                }
            }
            assert forall|u2: Seq<char>| #[trigger] post.user_permissions@.contains_key(u2)
                implies no_dups(post.user_permissions@[u2].deep_view()) by {
                if u2 == recipient@ {
                    assert(post.user_permissions@[u2].deep_view() == perm_list_v);
                    let base = if pre.user_permissions@.contains_key(recipient@) {
                        pre.user_permissions@[recipient@].deep_view()
                    } else {
                        Seq::<Seq<char>>::empty()
                    };
                    assert forall|a: int, b: int| 0 <= a < b < perm_list_v.len()
                        implies perm_list_v[a] != perm_list_v[b] by {
                        assert(pre.user_permissions@.contains_key(recipient@));
                        assert(perm_list_v[a] == base[a]);
                        if b == base.len() {
                            assert(base.contains(base[a])) by {
                                assert(base[a] == base[a]);
                            }
                            assert(pre.has_perm(recipient@, base[a]));
                            assert(base[a] != idv);
                            assert(perm_list_v[b] == idv);
                        } else {
                            assert(perm_list_v[b] == base[b]);
                            assert(no_dups(base));
                        }
                    }
                } else {
                    assert(post.user_permissions@[u2] == pre.user_permissions@[u2]);
                }
            }
            assert forall|u: Seq<char>, k: Seq<char>|
                #![trigger post.has_perm(u, k)]
                #![trigger is_shared_with(post.notes@[k], u)]
                post.has_perm(u, k)
                    <==> post.notes@.contains_key(k) && is_shared_with(post.notes@[k], u) by {
                if k == idv {
                    lemma_push_contains(sw, recipient@, u);
                }
                assert(pre.has_perm(u, k)
                    <==> pre.notes@.contains_key(k) && is_shared_with(pre.notes@[k], u));
                assert(post.has_perm(u, k) <==> pre.has_perm(u, k) || (u == recipient@ && k == idv));
            }
            assert(post.wf());
        }
        Ok(())
    }

    /// Overwrites a note's content (and optionally its metadata) after
    /// appending the pre-update state to the version history. Only the owner
    /// may update. The new `updated_at` never runs backwards, whatever the
    /// wall clock returned.
    pub fn update_note(
        &mut self,
        caller: &str,
        id: &str,
        content: Vec<u8>,
        metadata: Option<NoteMetadata>,
    ) -> (r: Result<(), NoteError>)
        requires
            old(self).wf(),
        ensures
            final(self).wf(),
            r is Ok <==> old(self).notes@.contains_key(id@)
                && old(self).notes@[id@].owner@ == caller@,
            !old(self).notes@.contains_key(id@) ==> r == Err::<(), NoteError>(NoteError::NotFound),
            old(self).notes@.contains_key(id@) && old(self).notes@[id@].owner@ != caller@
                ==> r == Err::<(), NoteError>(NoteError::Unauthorized),
            r is Err ==> *final(self) == *old(self),
            r is Ok ==> final(self).notes@.dom() == old(self).notes@.dom()
                && (forall|k: Seq<char>| #![auto] old(self).notes@.contains_key(k) && k != id@
                    ==> final(self).notes@[k] == old(self).notes@[k])
                && final(self).notes@[id@].encrypted_content@ == content@
                && final(self).notes@[id@].metadata@ == (match metadata {
                    Some(m) => m@,
                    None => old(self).notes@[id@].metadata@,
                })
                && final(self).notes@[id@].id@ == old(self).notes@[id@].id@
                && final(self).notes@[id@].owner@ == old(self).notes@[id@].owner@
                && final(self).notes@[id@].shared_with.deep_view()
                    == old(self).notes@[id@].shared_with.deep_view()
                && final(self).notes@[id@].created_at == old(self).notes@[id@].created_at
                && final(self).notes@[id@].updated_at >= old(self).notes@[id@].updated_at,
            r is Ok ==> final(self).version_history@.dom() == old(self).version_history@.dom()
                && (forall|k: Seq<char>| #![auto] old(self).version_history@.contains_key(k)
                    && k != id@
                    ==> final(self).version_history@[k] == old(self).version_history@[k])
                && final(self).version_history@[id@]@.len()
                    == old(self).version_history@[id@]@.len() + 1
                && (forall|j: int| #![auto] 0 <= j < old(self).version_history@[id@]@.len()
                    ==> final(self).version_history@[id@]@[j]@
                        == old(self).version_history@[id@]@[j]@)
                && final(self).version_history@[id@]@.last()@ == (NoteVersionView {
                    version_id: id@ + "_"@ + dec_string(
                        final(self).notes@[id@].updated_at as int,
                    ),
                    encrypted_content: old(self).notes@[id@].encrypted_content@,
                    metadata: old(self).notes@[id@].metadata@,
                    timestamp: final(self).notes@[id@].updated_at,
                }),
            final(self).user_permissions == old(self).user_permissions,
            final(self).shared_keys == old(self).shared_keys,
            final(self).messages == old(self).messages,
            final(self).proposals == old(self).proposals,
            final(self).context_values == old(self).context_values,
            final(self).min_approvals == old(self).min_approvals,
            final(self).active_proposals_limit == old(self).active_proposals_limit,
            r is Ok ==> final(self).events.deep_view() == old(self).events.deep_view().push(
                EventView::NoteUpdated { id: id@ },
            ),
            r is Err ==> final(self).events.deep_view() == old(self).events.deep_view(),
    {
        let n = match self.notes.get(id) {
            Some(n) => n,
            None => {
                return Err(NoteError::NotFound);
            },
        };
        let cs: String = caller.to_owned();
        if !(n.owner == cs) {
            return Err(NoteError::Unauthorized);
        }

        let now = now_secs();
        let ts = clamp_timestamp(now, n.updated_at);
        let version = NoteVersion {
            version_id: id.to_owned().concat("_").concat(u64_to_dec_string(ts).as_str()),
            encrypted_content: clone_bytes(&n.encrypted_content),
            metadata: n.metadata.clone(),
            timestamp: ts,
        };
        let new_note = EncryptedNote {
            id: n.id.clone(),
            encrypted_content: content,
            metadata: match metadata {
                Some(m) => m,
                None => n.metadata.clone(),
            },
            owner: n.owner.clone(),
            shared_with: clone_string_vec(&n.shared_with),
            created_at: n.created_at,
            updated_at: ts,
        };

        let ghost idv = id@;
        let ghost pre = *self;
        let ghost pre_note = self.notes@[idv];
        let ghost pre_hist = self.version_history@[idv]@;

        let mut hist = match self.version_history.get(id) {
            Some(h) => clone_versions(h),
            None => Vec::new(),
        };
        hist.push(version);

        let idk = new_note.id.clone();
        self.notes.insert(idk.clone(), new_note);
        self.version_history.insert(idk.clone(), hist);
        let ghost pre_events_vec = self.events;
        let ev = Event::NoteUpdated { id: idk };
        let ghost evg = ev;
        self.events.push(ev);

        proof {
            let post = *self;
            lemma_vec_push_deep(pre_events_vec, self.events, evg);
            assert(evg@ == (EventView::NoteUpdated { id: idv }));
            assert(post.notes@.dom() =~= pre.notes@.dom());
            assert(post.version_history@.dom() =~= pre.version_history@.dom());
            assert(post.notes@[idv].shared_with.deep_view()
                =~= pre_note.shared_with.deep_view());
            let h1 = post.version_history@[idv]@;
            assert(h1.len() == pre_hist.len() + 1);
            assert(forall|j: int| #![auto] 0 <= j < pre_hist.len() ==> h1[j]@ == pre_hist[j]@);
            assert(history_wf(h1, post.notes@[idv].updated_at)) by {
                assert(history_wf(pre_hist, pre_note.updated_at));
                assert forall|a: int, b: int| 0 <= a <= b < h1.len()
                    implies h1[a].timestamp <= h1[b].timestamp by {
                    if b < pre_hist.len() {
                        assert(h1[a]@ == pre_hist[a]@);
                        assert(h1[b]@ == pre_hist[b]@);
                    } else if a < pre_hist.len() {
                        assert(h1[a]@ == pre_hist[a]@);
                        assert(pre_hist[a].timestamp <= pre_hist[pre_hist.len() - 1].timestamp);
                    }
                }
            }
            assert(post.wf()) by {
                assert(note_wf(post.notes@[idv], idv));
                assert(keys_aligned(post.shared_keys@[idv]@, post.notes@[idv])) by {
                    assert(keys_aligned(pre.shared_keys@[idv]@, pre_note));
                    assert(post.shared_keys@[idv] == pre.shared_keys@[idv]);
                    assert forall|i: int| 0 <= i < post.shared_keys@[idv]@.len()
                        implies (#[trigger] post.shared_keys@[idv]@[i]).note_id@
                            == post.notes@[idv].id@
                            && post.shared_keys@[idv]@[i].recipient@
                                == post.notes@[idv].shared_with@[i]@
                            && post.shared_keys@[idv]@[i].encrypted_key@ == key_share_bytes(
                                post.notes@[idv].id@,
                                post.notes@[idv].shared_with@[i]@,
                            ) by {
                        assert(post.notes@[idv].shared_with@[i]@
                            == post.notes@[idv].shared_with.deep_view()[i]);
                        assert(pre_note.shared_with@[i]@ == pre_note.shared_with.deep_view()[i]);
                    }
                }
                assert forall|u: Seq<char>, k: Seq<char>|
                    #![trigger post.has_perm(u, k)]
                    #![trigger is_shared_with(post.notes@[k], u)]
                    post.has_perm(u, k)
                        <==> post.notes@.contains_key(k) && is_shared_with(post.notes@[k], u) by {
                    assert(pre.has_perm(u, k)
                        <==> pre.notes@.contains_key(k) && is_shared_with(pre.notes@[k], u));
                    assert(post.has_perm(u, k) == pre.has_perm(u, k));
                    if k == idv {
                        assert(is_shared_with(post.notes@[idv], u)
                            == is_shared_with(pre_note, u));
                    }
                }
            }
        }
        Ok(())
    }

    /// Deletes a note. Only the owner may delete. The version history, the
    /// key-share records, and every former recipient's reverse permission
    /// entry are removed with it.
    pub fn delete_note(&mut self, caller: &str, id: &str) -> (r: Result<(), NoteError>)
        requires
            old(self).wf(),
        ensures
            final(self).wf(),
            r is Ok <==> old(self).notes@.contains_key(id@)
                && old(self).notes@[id@].owner@ == caller@,
            !old(self).notes@.contains_key(id@) ==> r == Err::<(), NoteError>(NoteError::NotFound),
            old(self).notes@.contains_key(id@) && old(self).notes@[id@].owner@ != caller@
                ==> r == Err::<(), NoteError>(NoteError::Unauthorized),
            r is Err ==> *final(self) == *old(self),
            r is Ok ==> final(self).notes@ == old(self).notes@.remove(id@)
                && final(self).version_history@ == old(self).version_history@.remove(id@)
                && final(self).shared_keys@ == old(self).shared_keys@.remove(id@),
            r is Ok ==> (forall|u: Seq<char>, k: Seq<char>|
                #![trigger final(self).has_perm(u, k)]
                #![trigger old(self).has_perm(u, k)]
                final(self).has_perm(u, k) <==> old(self).has_perm(u, k) && k != id@),
            final(self).messages == old(self).messages,
            final(self).proposals == old(self).proposals,
            final(self).context_values == old(self).context_values,
            final(self).min_approvals == old(self).min_approvals,
            final(self).active_proposals_limit == old(self).active_proposals_limit,
            r is Ok ==> final(self).events.deep_view() == old(self).events.deep_view().push(
                EventView::NoteDeleted { id: id@ },
            ),
            r is Err ==> final(self).events.deep_view() == old(self).events.deep_view(),
    {
        let n = match self.notes.get(id) {
            Some(n) => n,
            None => {
                return Err(NoteError::NotFound);
            },
        };
        let cs: String = caller.to_owned();
        if !(n.owner == cs) {
            return Err(NoteError::Unauthorized);
        }

        let recipients = clone_string_vec(&n.shared_with);
        let idk = n.id.clone();
        let ghost idv = id@;
        let ghost pre = *self;
        let ghost rec = recipients.deep_view();

        let m = recipients.len();
        let mut i: usize = 0;
        while i < m
            invariant
                m == rec.len(),
                i <= m,
                rec == recipients.deep_view(),
                idk@ == idv,
                idv == id@,
                pre.wf(),
                pre.notes@.contains_key(idv),
                rec == pre.notes@[idv].shared_with.deep_view(),
                self.notes == pre.notes,
                self.version_history == pre.version_history,
                self.shared_keys == pre.shared_keys,
                self.messages == pre.messages,
                self.proposals == pre.proposals,
                self.context_values == pre.context_values,
                self.min_approvals == pre.min_approvals,
                self.active_proposals_limit == pre.active_proposals_limit,
                self.events == pre.events,
                self.user_permissions.wf(),
                forall|u: Seq<char>| #[trigger] self.user_permissions@.contains_key(u)
                    ==> no_dups(self.user_permissions@[u].deep_view()),
                forall|u: Seq<char>, k: Seq<char>|
                    #![trigger self.has_perm(u, k)]
                    k != idv ==> (self.has_perm(u, k) <==> pre.has_perm(u, k)),
                forall|u: Seq<char>| #![trigger self.has_perm(u, idv)]
                    self.has_perm(u, idv)
                        <==> pre.has_perm(u, idv) && !rec.take(i as int).contains(u),
            decreases m - i,
        {
            let ghost mid = *self;
            let ghost uv = rec[i as int];
            let user = &recipients[i];
            proof {
                assert(recipients@[i as int]@ == uv);
                assert(rec.take(i + 1) =~= rec.take(i as int).push(uv));
            }
            match self.user_permissions.get(user.as_str()) {
                Some(l) => {
                    let ghost lv = l.deep_view();
                    let nl = without_string(l, id);
                    let ghost nlv = nl.deep_view();
                    proof {
                        assert(no_dups(lv));
                        assert forall|k: Seq<char>| #![trigger nlv.contains(k)]
                            nlv.contains(k) <==> lv.contains(k) && k != idv by {
                            assert(nl.deep_view().contains(k) <==> l.deep_view().contains(k)
                                && k != id@);
                        }
                        assert(no_dups(nlv));
                    }
                    self.user_permissions.insert(user.clone(), nl);
                    proof {
                        let post = *self;
                        assert(post.user_permissions@[uv].deep_view() == nlv);
                        assert forall|u: Seq<char>, k: Seq<char>|
                            #![trigger post.has_perm(u, k)]
                            k != idv implies (post.has_perm(u, k) <==> pre.has_perm(u, k)) by {
                            if u == uv {
                                assert(post.user_permissions@[uv].deep_view().contains(k)
                                    == nlv.contains(k));
                                assert(nlv.contains(k) <==> lv.contains(k) && k != idv);
                                assert(mid.user_permissions@[uv].deep_view() == lv);
                                assert(post.has_perm(u, k) <==> mid.has_perm(u, k));
                            } else {
                                assert(post.user_permissions@.contains_key(u)
                                    ==> post.user_permissions@[u] == mid.user_permissions@[u]);
                                assert(post.has_perm(u, k) <==> mid.has_perm(u, k));
                            }
                        }
                        assert forall|u: Seq<char>| #![trigger post.has_perm(u, idv)]
                            post.has_perm(u, idv)
                                <==> pre.has_perm(u, idv) && !rec.take(i + 1).contains(u) by {
                            lemma_push_contains(rec.take(i as int), uv, u);
                            if u == uv {
                                assert(post.user_permissions@[uv].deep_view().contains(idv)
                                    == nlv.contains(idv));
                                assert(!nlv.contains(idv));
                                assert(!post.has_perm(uv, idv));
                                assert(rec.take(i + 1).contains(uv)) by {
                                    assert(rec.take(i + 1)[i as int] == uv);
                                }
                            } else {
                                assert(post.has_perm(u, idv) <==> mid.has_perm(u, idv));
                            }
                        }
                        assert forall|u2: Seq<char>|
                            #[trigger] post.user_permissions@.contains_key(u2)
                            implies no_dups(post.user_permissions@[u2].deep_view()) by {
                            if u2 != uv {
                                assert(post.user_permissions@[u2] == mid.user_permissions@[u2]);
                            } else {
                                assert(no_dups(lv));
                            }
                        }
                    }
                },
                None => {
                    proof {
                        let post = *self;
                        assert(post == mid);
                        assert(!mid.has_perm(uv, idv));
                        assert forall|u: Seq<char>| #![trigger post.has_perm(u, idv)]
                            post.has_perm(u, idv)
                                <==> pre.has_perm(u, idv) && !rec.take(i + 1).contains(u) by {
                            lemma_push_contains(rec.take(i as int), uv, u);
                        }
                    }
                },
            }
            i = i + 1;
        }

        proof {
            assert(rec.take(m as int) =~= rec);
        }
        let ghost scrubbed = *self;
        self.notes.remove(id);
        self.version_history.remove(id);
        self.shared_keys.remove(id);
        let ghost pre_events_vec = self.events;
        let ev = Event::NoteDeleted { id: idk };
        let ghost evg = ev;
        self.events.push(ev);

        proof {
            let post = *self;
            lemma_vec_push_deep(pre_events_vec, self.events, evg);
            assert(evg@ == (EventView::NoteDeleted { id: idv }));
            assert(pre_events_vec.deep_view() =~= pre.events.deep_view());
            // every former recipient's entry is gone, so no permission for
            // the deleted id survives
            assert forall|u: Seq<char>, k: Seq<char>|
                #![trigger post.has_perm(u, k)]
                #![trigger pre.has_perm(u, k)]
                post.has_perm(u, k) <==> pre.has_perm(u, k) && k != idv by {
                assert(post.has_perm(u, k) == scrubbed.has_perm(u, k));
                if k == idv {
                    assert(scrubbed.has_perm(u, idv)
                        <==> pre.has_perm(u, idv) && !rec.take(m as int).contains(u));
                    if pre.has_perm(u, idv) {
                        assert(is_shared_with(pre.notes@[idv], u));
                        assert(rec.contains(u));
                    }
                } else {
                    assert(scrubbed.has_perm(u, k) <==> pre.has_perm(u, k));
                }
            }
            assert(post.wf()) by {
                assert(post.notes@.dom() =~= pre.notes@.dom().remove(idv));
                assert(post.version_history@.dom() =~= pre.version_history@.dom().remove(idv));
                assert(post.shared_keys@.dom() =~= pre.shared_keys@.dom().remove(idv));
                assert(post.version_history@.dom() =~= post.notes@.dom());
                assert(post.shared_keys@.dom() =~= post.notes@.dom());
                assert forall|u: Seq<char>, k: Seq<char>|
                    #![trigger post.has_perm(u, k)]
                    #![trigger is_shared_with(post.notes@[k], u)]
                    post.has_perm(u, k)
                        <==> post.notes@.contains_key(k) && is_shared_with(post.notes@[k], u) by {
                    assert(pre.has_perm(u, k)
                        <==> pre.notes@.contains_key(k) && is_shared_with(pre.notes@[k], u));
                    if k != idv && post.notes@.contains_key(k) {
                        assert(post.notes@[k] == pre.notes@[k]);
                    }
                }
            }
        }
        Ok(())
    }

    /// The ids of the notes shared with `user`: the user's reverse
    /// permission list itself, in order and without repeats. A user with no
    /// entry has been shared nothing.
    pub fn list_user_notes(&self, user: &str) -> (r: Result<Vec<String>, NoteError>)
        requires
            self.wf(),
        ensures
            r is Ok,
            r->Ok_0.deep_view() == (if self.user_permissions@.contains_key(user@) {
                self.user_permissions@[user@].deep_view()
            } else {
                Seq::<Seq<char>>::empty()
            }),
            no_dups(r->Ok_0.deep_view()),
            forall|k: Seq<char>| #![auto] r->Ok_0.deep_view().contains(k)
                <==> self.has_perm(user@, k),
    {
        match self.user_permissions.get(user) {
            Some(l) => {
                let r = clone_string_vec(l);
                proof {
                    assert forall|k: Seq<char>| #![auto] r.deep_view().contains(k)
                        implies self.has_perm(user@, k) by {}
                }
                Ok(r)
            },
            None => {
                let r: Vec<String> = Vec::new();
                proof {
                    assert(r.deep_view() =~= Seq::<Seq<char>>::empty());
                    assert forall|k: Seq<char>| #![auto] !r.deep_view().contains(k) by {
                        assert(r.deep_view().len() == 0);
                    }
                }
                Ok(r)
            },
        }
    }

    /// The full version history of a note, oldest first; `NotFound` for an
    /// id that does not exist (a deleted note's history is gone with it).
    pub fn get_note_versions(&self, id: &str) -> (r: Result<&Vec<NoteVersion>, NoteError>)
        requires
            self.wf(),
        ensures
            r is Ok <==> self.notes@.contains_key(id@),
            r is Ok ==> *r->Ok_0 == self.version_history@[id@],
            r is Err ==> r->Err_0 == NoteError::NotFound,
    {
        match self.version_history.get(id) {
            Some(h) => Ok(h),
            None => Err(NoteError::NotFound),
        }
    }

    /// The identities a note's shared context lists: its current
    /// recipients, in the order they were added.
    pub fn get_shared_context(&self, note_id: &str) -> (r: Result<Vec<String>, NoteError>)
        requires
            self.wf(),
        ensures
            r is Ok <==> self.notes@.contains_key(note_id@),
            r is Ok ==> r->Ok_0.deep_view() == self.notes@[note_id@].shared_with.deep_view(),
            r is Err ==> r->Err_0 == NoteError::NotFound,
    {
        match self.notes.get(note_id) {
            Some(n) => Ok(clone_string_vec(&n.shared_with)),
            None => Err(NoteError::NotFound),
        }
    }

    /// The key share addressed to `caller` for a note, if one was granted:
    /// exactly the recipients of a live note hold one. The owner needs no
    /// share, and revocation is not supported — removing a recipient
    /// elsewhere does not retract material already handed out.
    pub fn get_shared_key(&self, caller: &str, note_id: &str) -> (r: Option<Vec<u8>>)
        requires
            self.wf(),
        ensures
            r is Some <==> self.notes@.contains_key(note_id@)
                && is_shared_with(self.notes@[note_id@], caller@),
            r is Some ==> r->0@ == key_share_bytes(note_id@, caller@),
    {
        let ks = match self.shared_keys.get(note_id) {
            Some(ks) => ks,
            None => {
                proof {
                    assert(self.shared_keys@.dom() == self.notes@.dom());
                    assert(!self.notes@.contains_key(note_id@));
                }
                return None;
            },
        };
        let ghost idv = note_id@;
        let ghost note = self.notes@[idv];
        proof {
            assert(self.shared_keys@.dom() == self.notes@.dom());
            assert(self.notes@.contains_key(idv));
            assert(note_wf(note, idv));
            assert(keys_aligned(ks@, note));
        }
        let cs: String = caller.to_owned();
        let n = ks.len();
        let mut i: usize = 0;
        while i < n
            invariant
                n == ks@.len(),
                i <= n,
                cs@ == caller@,
                idv == note_id@,
                self.notes@.contains_key(idv),
                note == self.notes@[idv],
                note_wf(note, idv),
                keys_aligned(ks@, note),
                forall|j: int| 0 <= j < i ==> (#[trigger] ks@[j]).recipient@ != caller@,
            decreases n - i,
        {
            if ks[i].recipient == cs {
                proof {
                    assert(note.shared_with@[i as int]@ == caller@);
                    assert(is_shared_with(note, caller@)) by {
                        assert(note.shared_with.deep_view()[i as int] == caller@);
                    }
                    assert(ks@[i as int].encrypted_key@ == key_share_bytes(idv, caller@));
                }
                return Some(clone_bytes(&ks[i].encrypted_key));
            }
            i = i + 1;
        }
        proof {
            if is_shared_with(note, caller@) {
                let j = choose|j: int| 0 <= j < note.shared_with.deep_view().len()
                    && #[trigger] note.shared_with.deep_view()[j] == caller@;
                assert(note.shared_with@[j]@ == caller@);
                assert(ks@[j].recipient@ == caller@);
            }
        }
        None
    }

    /// The notes `caller` may read: every note it owns or is shared on,
    /// each exactly once.
    pub fn list_notes(&self, caller: &str) -> (r: Vec<&EncryptedNote>)
        requires
            self.wf(),
        ensures
            forall|j: int| #![auto] 0 <= j < r@.len()
                ==> self.notes@.contains_key(r@[j].id@) && *r@[j] == self.notes@[r@[j].id@]
                    && read_allowed(*r@[j], caller@),
            forall|k: Seq<char>| #[trigger] self.notes@.contains_key(k)
                && read_allowed(self.notes@[k], caller@)
                    ==> exists|j: int| 0 <= j < r@.len() && r@[j].id@ == k,
            forall|a: int, b: int| 0 <= a < b < r@.len() ==> r@[a].id@ != r@[b].id@,
    {
        let cs: String = caller.to_owned();
        let n = self.notes.len();
        let mut r: Vec<&EncryptedNote> = Vec::new();
        let mut i: usize = 0;
        proof {
            self.notes.lemma_enumeration();
        }
        while i < n
            invariant
                self.wf(),
                cs@ == caller@,
                n == self.notes.keys_seq().len(),
                i <= n,
                self.notes.keys_seq().len() == self.notes.values_seq().len(),
                forall|m: int| #![trigger self.notes.keys_seq()[m]]
                    0 <= m < n
                        ==> self.notes@.contains_key(self.notes.keys_seq()[m])
                            && self.notes@[self.notes.keys_seq()[m]]
                                == self.notes.values_seq()[m],
                forall|k: Seq<char>| #[trigger] self.notes@.contains_key(k)
                    ==> exists|m: int| 0 <= m < n && self.notes.keys_seq()[m] == k,
                forall|j: int| #![auto] 0 <= j < r@.len()
                    ==> self.notes@.contains_key(r@[j].id@) && *r@[j] == self.notes@[r@[j].id@]
                        && read_allowed(*r@[j], caller@),
                forall|m: int| #![trigger self.notes.keys_seq()[m]]
                    0 <= m < i && read_allowed(self.notes@[self.notes.keys_seq()[m]], caller@)
                        ==> exists|j: int| 0 <= j < r@.len()
                            && r@[j].id@ == self.notes.keys_seq()[m],
                forall|m: int, m2: int|
                    0 <= m < m2 < n ==> self.notes.keys_seq()[m] != self.notes.keys_seq()[m2],
                forall|j: int| #![trigger r@[j]] 0 <= j < r@.len()
                    ==> exists|m: int| #![auto] 0 <= m < i && self.notes.keys_seq()[m] == r@[j].id@,
                forall|a: int, b: int| 0 <= a < b < r@.len() ==> r@[a].id@ != r@[b].id@,
            decreases n - i,
        {
            let note = self.notes.value_at(i);
            let ghost key = self.notes.keys_seq()[i as int];
            proof {
                assert(note_wf(self.notes@[key], key));
                assert(note.id@ == key);
            }
            if note.owner == cs || contains_string(&note.shared_with, caller) {
                let ghost pre_r = r@;
                r.push(note);
                proof {
                    assert forall|m: int| #![trigger self.notes.keys_seq()[m]]
                        0 <= m < i + 1
                            && read_allowed(self.notes@[self.notes.keys_seq()[m]], caller@)
                        implies exists|j: int| 0 <= j < r@.len()
                            && r@[j].id@ == self.notes.keys_seq()[m] by {
                        if m < i {
                            let j = choose|j: int| 0 <= j < pre_r.len()
                                && #[trigger] pre_r[j].id@ == self.notes.keys_seq()[m];
                            assert(r@[j].id@ == self.notes.keys_seq()[m]);
                        } else {
                            assert(r@[r@.len() - 1].id@ == key);
                        }
                    }
                    assert forall|j: int| #![trigger r@[j]] 0 <= j < r@.len()
                        implies exists|m: int| #![auto] 0 <= m < i + 1
                            && self.notes.keys_seq()[m] == r@[j].id@ by {
                        if j < pre_r.len() {
                            assert(r@[j] == pre_r[j]);
                            let m = choose|m: int| #![auto]
                                0 <= m < i && self.notes.keys_seq()[m] == pre_r[j].id@;
                            assert(self.notes.keys_seq()[m] == r@[j].id@);
                        } else {
                            assert(self.notes.keys_seq()[i as int] == r@[j].id@);
                        }
                    }
                    assert forall|a: int, b: int| 0 <= a < b < r@.len()
                        implies r@[a].id@ != r@[b].id@ by {
                        if b < pre_r.len() {
                            assert(r@[a] == pre_r[a]);
                            assert(r@[b] == pre_r[b]);
                        } else {
                            assert(r@[a] == pre_r[a]);
                            assert(r@[b].id@ == key);
                            let m = choose|m: int| #![auto]
                                0 <= m < i && self.notes.keys_seq()[m] == pre_r[a].id@;
                            assert(self.notes.keys_seq()[m] != self.notes.keys_seq()[i as int]);
                        }
                    }
                }
            } else {
                proof {
                    assert(!read_allowed(self.notes@[key], caller@));
                }
            }
            i = i + 1;
        }
        proof {
            assert forall|k: Seq<char>| #[trigger] self.notes@.contains_key(k)
                && read_allowed(self.notes@[k], caller@)
                implies exists|j: int| 0 <= j < r@.len() && r@[j].id@ == k by {
                let m = choose|m: int| 0 <= m < n && #[trigger] self.notes.keys_seq()[m] == k;
                assert(read_allowed(self.notes@[self.notes.keys_seq()[m]], caller@));
            }
        }
        r
    }
}

} // verus!
