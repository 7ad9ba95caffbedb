//! The proposal workflow: privileged actions validated at construction,
//! gated by threshold approval, and executed at most once.

use vstd::prelude::*;
use crate::codec::{decode_proposal_id, dec_value, hex_bytes, is_dec_digit, parse_u128, valid_hex};
use crate::errors::NoteError;
use crate::lists::{clone_bytes, clone_string_vec, contains_string, lemma_push_contains, lemma_vec_push_deep, no_dups};
use crate::keyshare::key_share_bytes;
use crate::notes::{
    is_shared_with, AppState, EncryptedNote, EncryptedNoteView, Event, EventView, Message,
    SharedKeyView,
};

verus! {

/// The fields a proposal request may carry, already lifted out of the wire
/// encoding into plain values; absent fields are `None`.
pub struct ProposalParams {
    pub receiver_id: Option<String>,
    pub method_name: Option<String>,
    pub args: Option<String>,
    pub amount: Option<String>,
    pub deposit: Option<String>,
    pub key: Option<String>,
    pub value: Option<String>,
    pub num_approvals: Option<u64>,
    pub active_proposals_limit: Option<u64>,
    pub proposal_id: Option<String>,
    pub note: Option<EncryptedNote>,
    pub note_id: Option<String>,
    pub recipient: Option<String>,
}

impl ProposalParams {
    /// Params with every field absent; requests fill in what they need.
    pub fn empty() -> (r: ProposalParams)
        ensures
            r.receiver_id is None,
            r.method_name is None,
            r.args is None,
            r.amount is None,
            r.deposit is None,
            r.key is None,
            r.value is None,
            r.num_approvals is None,
            r.active_proposals_limit is None,
            r.proposal_id is None,
            r.note is None,
            r.note_id is None,
            r.recipient is None,
    {
        ProposalParams {
            receiver_id: None,
            method_name: None,
            args: None,
            amount: None,
            deposit: None,
            key: None,
            value: None,
            num_approvals: None,
            active_proposals_limit: None,
            proposal_id: None,
            note: None,
            note_id: None,
            recipient: None,
        }
    }
}

/// A request as it arrives from a client: a string tag and loose params.
/// `AppState::create_new_proposal` validates it into `Action`s or rejects it.
pub struct CreateProposalRequest {
    pub action_type: String,
    pub params: ProposalParams,
}

impl CreateProposalRequest {
    /// A request to store a note through the proposal workflow.
    pub fn new_note_action(note: EncryptedNote) -> (r: CreateProposalRequest)
        ensures
            r.action_type@ == "CreateNote"@,
            r.params.note is Some,
            r.params.note->0 == note,
    {
        let mut params = ProposalParams::empty();
        params.note = Some(note);
        CreateProposalRequest { action_type: "CreateNote".to_owned(), params }
    }

    /// A request to share a note through the proposal workflow.
    pub fn new_share_action(note_id: String, recipient: String) -> (r: CreateProposalRequest)
        ensures
            r.action_type@ == "ShareNote"@,
            r.params.note_id is Some,
            r.params.note_id->0 == note_id,
            r.params.recipient is Some,
            r.params.recipient->0 == recipient,
    {
        let mut params = ProposalParams::empty();
        params.note_id = Some(note_id);
        params.recipient = Some(recipient);
        CreateProposalRequest { action_type: "ShareNote".to_owned(), params }
    }
}

/// An action named by its string tag with loose params, as the ledger-side
/// store frames it.
pub struct ProposalAction {
    pub scope: String,
    pub params: ProposalParams,
}

/// A fully validated action: each variant carries exactly the fields its
/// execution needs, so the dispatcher has no malformed case left.
#[derive(Debug)]
pub enum Action {
    ExternalCall { receiver_id: String, method_name: String, args: String, deposit: u128 },
    Transfer { receiver_id: String, amount: u128 },
    SetContextValue { key: String, value: String },
    SetNumApprovals { num_approvals: u32 },
    SetActiveProposalsLimit { limit: u32 },
    DeleteProposal { proposal_id_hex: String, proposal_id_raw: Vec<u8> },
    CreateNote { note: EncryptedNote },
    ShareNote { note_id: String, recipient: String },
}

/// A proposal: ordered actions, a set of approving identities kept free of
/// duplicates, and the approval threshold captured at creation.
#[derive(Debug)]
pub struct Proposal {
    pub id: String,
    pub author: String,
    pub actions: Vec<Action>,
    pub approvals: Vec<String>,
    pub min_approvals: u32,
    pub executed: bool,
}

/// Well-formedness of a stored proposal under its key: the id field matches,
/// no identity approves twice, and an executed proposal met its threshold.
pub open spec fn proposal_wf(p: Proposal, pid: Seq<char>) -> bool {
    &&& p.id@ == pid
    &&& no_dups(p.approvals.deep_view())
    &&& p.executed ==> p.approvals@.len() >= p.min_approvals
}

/// The mathematical shape of a validated action.
pub ghost enum ActionView {
    ExternalCall { receiver_id: Seq<char>, method_name: Seq<char>, args: Seq<char>, deposit: u128 },
    Transfer { receiver_id: Seq<char>, amount: u128 },
    SetContextValue { key: Seq<char>, value: Seq<char> },
    SetNumApprovals { num_approvals: u32 },
    SetActiveProposalsLimit { limit: u32 },
    DeleteProposal { proposal_id_hex: Seq<char>, proposal_id_raw: Seq<u8> },
    CreateNote { note: EncryptedNoteView },
    ShareNote { note_id: Seq<char>, recipient: Seq<char> },
}

impl View for Action {
    type V = ActionView;

    open spec fn view(&self) -> ActionView {
        match self {
            Action::ExternalCall { receiver_id, method_name, args, deposit } =>
                ActionView::ExternalCall {
                    receiver_id: receiver_id@,
                    method_name: method_name@,
                    args: args@,
                    deposit: *deposit,
                },
            Action::Transfer { receiver_id, amount } => ActionView::Transfer {
                receiver_id: receiver_id@,
                amount: *amount,
            },
            Action::SetContextValue { key, value } => ActionView::SetContextValue {
                key: key@,
                value: value@,
            },
            Action::SetNumApprovals { num_approvals } => ActionView::SetNumApprovals {
                num_approvals: *num_approvals,
            },
            Action::SetActiveProposalsLimit { limit } => ActionView::SetActiveProposalsLimit {
                limit: *limit,
            },
            Action::DeleteProposal { proposal_id_hex, proposal_id_raw } =>
                ActionView::DeleteProposal {
                    proposal_id_hex: proposal_id_hex@,
                    proposal_id_raw: proposal_id_raw@,
                },
            Action::CreateNote { note } => ActionView::CreateNote { note: note@ },
            Action::ShareNote { note_id, recipient } => ActionView::ShareNote {
                note_id: note_id@,
                recipient: recipient@,
            },
        }
    }
}

impl DeepView for Action {
    type V = ActionView;

    open spec fn deep_view(&self) -> ActionView {
        self.view()
    }
}

impl Clone for Action {
    fn clone(&self) -> (r: Self)
        ensures
            r@ == self@,
    {
        match self {
            Action::ExternalCall { receiver_id, method_name, args, deposit } =>
                Action::ExternalCall {
                    receiver_id: receiver_id.clone(),
                    method_name: method_name.clone(),
                    args: args.clone(),
                    deposit: *deposit,
                },
            Action::Transfer { receiver_id, amount } => Action::Transfer {
                receiver_id: receiver_id.clone(),
                amount: *amount,
            },
            Action::SetContextValue { key, value } => Action::SetContextValue {
                key: key.clone(),
                value: value.clone(),
            },
            Action::SetNumApprovals { num_approvals } => Action::SetNumApprovals {
                num_approvals: *num_approvals,
            },
            Action::SetActiveProposalsLimit { limit } => Action::SetActiveProposalsLimit {
                limit: *limit,
            },
            Action::DeleteProposal { proposal_id_hex, proposal_id_raw } =>
                Action::DeleteProposal {
                    proposal_id_hex: proposal_id_hex.clone(),
                    proposal_id_raw: clone_bytes(proposal_id_raw),
                },
            Action::CreateNote { note } => Action::CreateNote { note: note.clone() },
            Action::ShareNote { note_id, recipient } => Action::ShareNote {
                note_id: note_id.clone(),
                recipient: recipient.clone(),
            },
        }
    }
}

/// A deferred effect on an outside target, handed back to the surrounding
/// runtime to deliver: the one part of execution the library cannot do.
#[derive(Debug)]
pub enum ExternalEffect {
    Call { receiver_id: String, method_name: String, args: String, deposit: u128 },
    Transfer { receiver_id: String, amount: u128 },
}

/// The mathematical shape of a deferred effect.
pub ghost enum ExternalEffectView {
    Call { receiver_id: Seq<char>, method_name: Seq<char>, args: Seq<char>, deposit: u128 },
    Transfer { receiver_id: Seq<char>, amount: u128 },
}

impl View for ExternalEffect {
    type V = ExternalEffectView;

    open spec fn view(&self) -> ExternalEffectView {
        match self {
            ExternalEffect::Call { receiver_id, method_name, args, deposit } =>
                ExternalEffectView::Call {
                    receiver_id: receiver_id@,
                    method_name: method_name@,
                    args: args@,
                    deposit: *deposit,
                },
            ExternalEffect::Transfer { receiver_id, amount } => ExternalEffectView::Transfer {
                receiver_id: receiver_id@,
                amount: *amount,
            },
        }
    }
}

impl DeepView for ExternalEffect {
    type V = ExternalEffectView;

    open spec fn deep_view(&self) -> ExternalEffectView {
        self.view()
    }
}

/// A decimal string denoting a value that fits in a `u128`.
pub open spec fn parses_u128(s: Seq<char>) -> bool {
    s.len() > 0 && (forall|i: int| 0 <= i < s.len() ==> is_dec_digit(#[trigger] s[i]))
        && dec_value(s) <= u128::MAX
}

/// Whether a request carries every field its action type needs, with numeric
/// fields that parse and a proposal id that is 32 bytes of hex. Requests are
/// checked here, at construction; execution has no malformed case left.
pub open spec fn valid_request(rq: CreateProposalRequest) -> bool {
    if rq.action_type@ == "ExternalFunctionCall"@ {
        rq.params.receiver_id is Some && rq.params.method_name is Some
            && rq.params.args is Some && rq.params.deposit is Some
            && parses_u128(rq.params.deposit->0@)
    } else if rq.action_type@ == "Transfer"@ {
        rq.params.receiver_id is Some && rq.params.amount is Some
            && parses_u128(rq.params.amount->0@)
    } else if rq.action_type@ == "SetContextValue"@ {
        rq.params.key is Some && rq.params.value is Some
    } else if rq.action_type@ == "SetNumApprovals"@ {
        rq.params.num_approvals is Some && rq.params.num_approvals->0 <= u32::MAX
    } else if rq.action_type@ == "SetActiveProposalsLimit"@ {
        rq.params.active_proposals_limit is Some
            && rq.params.active_proposals_limit->0 <= u32::MAX
    } else if rq.action_type@ == "DeleteProposal"@ {
        rq.params.proposal_id is Some && valid_hex(rq.params.proposal_id->0@)
            && rq.params.proposal_id->0@.len() == 64
    } else if rq.action_type@ == "CreateNote"@ {
        rq.params.note is Some && rq.params.note->0.shared_with@.len() == 0
    } else if rq.action_type@ == "ShareNote"@ {
        rq.params.note_id is Some && rq.params.recipient is Some
    } else {
        false
    }
}

/// The action a valid request denotes.
pub open spec fn requested_action(rq: CreateProposalRequest) -> ActionView
    recommends
        valid_request(rq),
{
    if rq.action_type@ == "ExternalFunctionCall"@ {
        ActionView::ExternalCall {
            receiver_id: rq.params.receiver_id->0@,
            method_name: rq.params.method_name->0@,
            args: rq.params.args->0@,
            deposit: dec_value(rq.params.deposit->0@) as u128,
        }
    } else if rq.action_type@ == "Transfer"@ {
        ActionView::Transfer {
            receiver_id: rq.params.receiver_id->0@,
            amount: dec_value(rq.params.amount->0@) as u128,
        }
    } else if rq.action_type@ == "SetContextValue"@ {
        ActionView::SetContextValue { key: rq.params.key->0@, value: rq.params.value->0@ }
    } else if rq.action_type@ == "SetNumApprovals"@ {
        ActionView::SetNumApprovals { num_approvals: rq.params.num_approvals->0 as u32 }
    } else if rq.action_type@ == "SetActiveProposalsLimit"@ {
        ActionView::SetActiveProposalsLimit {
            limit: rq.params.active_proposals_limit->0 as u32,
        }
    } else if rq.action_type@ == "DeleteProposal"@ {
        ActionView::DeleteProposal {
            proposal_id_hex: rq.params.proposal_id->0@,
            proposal_id_raw: hex_bytes(rq.params.proposal_id->0@),
        }
    } else if rq.action_type@ == "CreateNote"@ {
        ActionView::CreateNote { note: rq.params.note->0@ }
    } else {
        ActionView::ShareNote {
            note_id: rq.params.note_id->0@,
            recipient: rq.params.recipient->0@,
        }
    }
}

/// Validates a request into the action it denotes, or rejects it.
pub fn validate_request(request: CreateProposalRequest) -> (r: Result<Action, NoteError>)
    ensures
        r is Ok <==> valid_request(request),
        r is Ok ==> r->Ok_0@ == requested_action(request),
        r is Err ==> r->Err_0 == NoteError::InvalidAction,
{
    let CreateProposalRequest { action_type, params } = request;
    if action_type == "ExternalFunctionCall".to_owned() {
        let (receiver_id, method_name, args, deposit_s) = match (
            params.receiver_id,
            params.method_name,
            params.args,
            params.deposit,
        ) {
            (Some(a), Some(b), Some(c), Some(d)) => (a, b, c, d),
            _ => {
                return Err(NoteError::InvalidAction);
            },
        };
        let deposit = match parse_u128(deposit_s.as_str()) {
            Some(v) => v,
            None => {
                return Err(NoteError::InvalidAction);
            },
        };
        Ok(Action::ExternalCall { receiver_id, method_name, args, deposit })
    } else if action_type == "Transfer".to_owned() {
        let (receiver_id, amount_s) = match (params.receiver_id, params.amount) {
            (Some(a), Some(b)) => (a, b),
            _ => {
                return Err(NoteError::InvalidAction);
            },
        };
        let amount = match parse_u128(amount_s.as_str()) {
            Some(v) => v,
            None => {
                return Err(NoteError::InvalidAction);
            },
        };
        Ok(Action::Transfer { receiver_id, amount })
    } else if action_type == "SetContextValue".to_owned() {
        match (params.key, params.value) {
            (Some(key), Some(value)) => Ok(Action::SetContextValue { key, value }),
            _ => Err(NoteError::InvalidAction),
        }
    } else if action_type == "SetNumApprovals".to_owned() {
        match params.num_approvals {
            Some(n) => {
                if n <= u32::MAX as u64 {
                    Ok(Action::SetNumApprovals { num_approvals: n as u32 })
                } else {
                    Err(NoteError::InvalidAction)
                }
            },
            None => Err(NoteError::InvalidAction),
        }
    } else if action_type == "SetActiveProposalsLimit".to_owned() {
        match params.active_proposals_limit {
            Some(n) => {
                if n <= u32::MAX as u64 {
                    Ok(Action::SetActiveProposalsLimit { limit: n as u32 })
                } else {
                    Err(NoteError::InvalidAction)
                }
            },
            None => Err(NoteError::InvalidAction),
        }
    } else if action_type == "DeleteProposal".to_owned() {
        match params.proposal_id {
            Some(pid) => {
                match decode_proposal_id(pid.as_str()) {
                    Ok(raw) => Ok(Action::DeleteProposal {
                        proposal_id_hex: pid,
                        proposal_id_raw: raw,
                    }),
                    Err(_) => Err(NoteError::InvalidAction),
                }
            },
            None => Err(NoteError::InvalidAction),
        }
    } else if action_type == "CreateNote".to_owned() {
        match params.note {
            Some(note) => {
                if note.shared_with.len() == 0 {
                    Ok(Action::CreateNote { note })
                } else {
                    Err(NoteError::InvalidAction)
                }
            },
            None => Err(NoteError::InvalidAction),
        }
    } else if action_type == "ShareNote".to_owned() {
        match (params.note_id, params.recipient) {
            (Some(note_id), Some(recipient)) => Ok(Action::ShareNote { note_id, recipient }),
            _ => Err(NoteError::InvalidAction),
        }
    } else {
        Err(NoteError::InvalidAction)
    }
}

/// A copy of an action list.
fn clone_actions(v: &Vec<Action>) -> (r: Vec<Action>)
    ensures
        r@.len() == v@.len(),
        forall|j: int| 0 <= j < v@.len() ==> #[trigger] r@[j]@ == v@[j]@,
{
    let mut r: Vec<Action> = Vec::new();
    let n = v.len();
    let mut i: usize = 0;
    while i < n
        invariant
            n == v@.len(),
            i <= n,
            r@.len() == i,
            forall|j: int| 0 <= j < i ==> #[trigger] r@[j]@ == v@[j]@,
        decreases n - i,
    {
        r.push(v[i].clone());
        i = i + 1;
    }
    r
}

/// A copy of a message thread.
fn clone_messages(v: &Vec<Message>) -> (r: Vec<Message>)
    ensures
        r@.len() == v@.len(),
        forall|j: int| 0 <= j < v@.len() ==> #[trigger] r@[j]@ == v@[j]@,
{
    let mut r: Vec<Message> = Vec::new();
    let n = v.len();
    let mut i: usize = 0;
    while i < n
        invariant
            n == v@.len(),
            i <= n,
            r@.len() == i,
            forall|j: int| 0 <= j < i ==> #[trigger] r@[j]@ == v@[j]@,
        decreases n - i,
    {
        r.push(v[i].clone());
        i = i + 1;
    }
    r
}

/// The approval set after one identity approves: unchanged when already
/// present, else grown by that identity.
pub open spec fn insert_approval(s: Seq<Seq<char>>, a: Seq<char>) -> Seq<Seq<char>> {
    if s.contains(a) {
        s
    } else {
        s.push(a)
    }
}

/// The deferred outside effects that executing a list of actions issues, in
/// order: one per `ExternalCall` or `Transfer`, nothing for local actions.
pub open spec fn effects_of(s: Seq<ActionView>) -> Seq<ExternalEffectView>
    decreases s.len(),
{
    if s.len() == 0 {
        Seq::empty()
    } else {
        effects_of(s.drop_last()) + match s.last() {
            ActionView::ExternalCall { receiver_id, method_name, args, deposit } => seq![
                ExternalEffectView::Call { receiver_id, method_name, args, deposit },
            ],
            ActionView::Transfer { receiver_id, amount } => seq![
                ExternalEffectView::Transfer { receiver_id, amount },
            ],
            _ => Seq::empty(),
        }
    }
}

/// The note tables are untouched: notes, histories, permission index and
/// key-share records all keep their values.
pub open spec fn note_tables_unchanged(pre: AppState, post: AppState) -> bool {
    &&& post.notes == pre.notes
    &&& post.version_history == pre.version_history
    &&& post.user_permissions == pre.user_permissions
    &&& post.shared_keys == pre.shared_keys
}

/// The configuration is untouched.
pub open spec fn config_unchanged(pre: AppState, post: AppState) -> bool {
    &&& post.context_values == pre.context_values
    &&& post.min_approvals == pre.min_approvals
    &&& post.active_proposals_limit == pre.active_proposals_limit
}

/// The note-table delta of a successful `CreateNote`: the note stored under
/// its id with an empty history and no key shares, everything else kept.
pub open spec fn note_created(pre: AppState, post: AppState, note: EncryptedNoteView) -> bool {
    &&& !pre.notes@.contains_key(note.id)
    &&& note.shared_with.len() == 0
    &&& post.notes@.dom() == pre.notes@.dom().insert(note.id)
    &&& post.notes@[note.id]@ == note
    &&& forall|k: Seq<char>| #![auto] pre.notes@.contains_key(k)
        ==> post.notes@[k] == pre.notes@[k]
    &&& post.version_history@.dom() == post.notes@.dom()
    &&& post.version_history@[note.id]@.len() == 0
    &&& forall|k: Seq<char>| #![auto] pre.version_history@.contains_key(k)
        ==> post.version_history@[k] == pre.version_history@[k]
    &&& post.shared_keys@.dom() == post.notes@.dom()
    &&& post.shared_keys@[note.id]@.len() == 0
    &&& forall|k: Seq<char>| #![auto] pre.shared_keys@.contains_key(k)
        ==> post.shared_keys@[k] == pre.shared_keys@[k]
    &&& post.user_permissions == pre.user_permissions
}

/// The note-table delta of a successful `ShareNote` by the note's owner:
/// the recipient appended to the share list, to the permission index, and
/// given a key-share record, everything else kept.
pub open spec fn note_shared(
    pre: AppState,
    post: AppState,
    author: Seq<char>,
    note_id: Seq<char>,
    recipient: Seq<char>,
) -> bool {
    &&& pre.notes@.contains_key(note_id)
    &&& pre.notes@[note_id].owner@ == author
    &&& !pre.notes@[note_id].shared_with.deep_view().contains(recipient)
    &&& recipient != author
    &&& post.notes@.dom() == pre.notes@.dom()
    &&& forall|k: Seq<char>| #![auto] pre.notes@.contains_key(k) && k != note_id
        ==> post.notes@[k] == pre.notes@[k]
    &&& post.notes@[note_id].shared_with.deep_view()
        == pre.notes@[note_id].shared_with.deep_view().push(recipient)
    &&& post.notes@[note_id].id@ == pre.notes@[note_id].id@
    &&& post.notes@[note_id].owner@ == pre.notes@[note_id].owner@
    &&& post.notes@[note_id].encrypted_content@ == pre.notes@[note_id].encrypted_content@
    &&& post.notes@[note_id].metadata@ == pre.notes@[note_id].metadata@
    &&& post.notes@[note_id].created_at == pre.notes@[note_id].created_at
    &&& post.notes@[note_id].updated_at == pre.notes@[note_id].updated_at
    &&& forall|u: Seq<char>, k: Seq<char>|
        #![trigger post.has_perm(u, k)]
        #![trigger pre.has_perm(u, k)]
        post.has_perm(u, k) <==> pre.has_perm(u, k) || (u == recipient && k == note_id)
    &&& post.version_history == pre.version_history
    &&& post.shared_keys@.dom() == pre.shared_keys@.dom()
    &&& post.shared_keys@[note_id]@.len() == pre.shared_keys@[note_id]@.len() + 1
    &&& post.shared_keys@[note_id]@.last()@ == (SharedKeyView {
        note_id,
        recipient,
        encrypted_key: key_share_bytes(note_id, recipient),
    })
    &&& forall|k: Seq<char>| #![auto] pre.shared_keys@.contains_key(k) && k != note_id
        ==> post.shared_keys@[k] == pre.shared_keys@[k]
    &&& forall|j: int| #![auto] 0 <= j < pre.shared_keys@[note_id]@.len()
        ==> post.shared_keys@[note_id]@[j]@ == pre.shared_keys@[note_id]@[j]@
}

/// The delta of a successful `SetContextValue`: the key bound, other keys
/// kept.
pub open spec fn context_value_set(
    pre: AppState,
    post: AppState,
    key: Seq<char>,
    value: Seq<char>,
) -> bool {
    &&& post.context_values@.dom() == pre.context_values@.dom().insert(key)
    &&& post.context_values@[key]@ == value
    &&& forall|k: Seq<char>| #![auto] pre.context_values@.contains_key(k) && k != key
        ==> post.context_values@[k] == pre.context_values@[k]
}

/// The whole-state effect of one successfully applied action, including its
/// success conditions: what `apply_action` does for each variant.
pub open spec fn action_effect(
    pre: AppState,
    post: AppState,
    author: Seq<char>,
    a: ActionView,
) -> bool {
    match a {
        ActionView::ExternalCall { .. } => post == pre,
        ActionView::Transfer { .. } => post == pre,
        ActionView::SetContextValue { key, value } => {
            &&& context_value_set(pre, post, key, value)
            &&& note_tables_unchanged(pre, post)
            &&& post.messages == pre.messages
            &&& post.proposals == pre.proposals
            &&& post.min_approvals == pre.min_approvals
            &&& post.active_proposals_limit == pre.active_proposals_limit
            &&& post.events == pre.events
        },
        ActionView::SetNumApprovals { num_approvals } => {
            &&& post.min_approvals == num_approvals
            &&& note_tables_unchanged(pre, post)
            &&& post.messages == pre.messages
            &&& post.proposals == pre.proposals
            &&& post.context_values == pre.context_values
            &&& post.active_proposals_limit == pre.active_proposals_limit
            &&& post.events == pre.events
        },
        ActionView::SetActiveProposalsLimit { limit } => {
            &&& post.active_proposals_limit == limit
            &&& note_tables_unchanged(pre, post)
            &&& post.messages == pre.messages
            &&& post.proposals == pre.proposals
            &&& post.context_values == pre.context_values
            &&& post.min_approvals == pre.min_approvals
            &&& post.events == pre.events
        },
        ActionView::DeleteProposal { proposal_id_hex, .. } => {
            &&& pre.proposals@.contains_key(proposal_id_hex)
            &&& post.proposals@ == pre.proposals@.remove(proposal_id_hex)
            &&& note_tables_unchanged(pre, post)
            &&& post.messages == pre.messages
            &&& config_unchanged(pre, post)
            &&& post.events == pre.events
        },
        ActionView::CreateNote { note } => {
            &&& note_created(pre, post, note)
            &&& post.messages == pre.messages
            &&& post.proposals == pre.proposals
            &&& config_unchanged(pre, post)
            &&& post.events.deep_view() == pre.events.deep_view().push(
                EventView::NoteCreated { id: note.id },
            )
        },
        ActionView::ShareNote { note_id, recipient } => {
            &&& note_shared(pre, post, author, note_id, recipient)
            &&& post.messages == pre.messages
            &&& post.proposals == pre.proposals
            &&& config_unchanged(pre, post)
            &&& post.events.deep_view() == pre.events.deep_view().push(
                EventView::NoteShared { id: note_id, with: recipient },
            )
        },
    }
}

/// The bookkeeping step of a successful approval on an open proposal: only
/// the proposal's approval set and the event log change.
pub open spec fn approval_recorded(
    pre: AppState,
    post: AppState,
    pid: Seq<char>,
    approver: Seq<char>,
) -> bool {
    &&& pre.proposals@.contains_key(pid)
    &&& note_tables_unchanged(pre, post)
    &&& post.messages == pre.messages
    &&& config_unchanged(pre, post)
    &&& post.proposals@.dom() == pre.proposals@.dom()
    &&& forall|k: Seq<char>| #![auto] pre.proposals@.contains_key(k) && k != pid
        ==> post.proposals@[k] == pre.proposals@[k]
    &&& post.proposals@[pid].id@ == pre.proposals@[pid].id@
    &&& post.proposals@[pid].author@ == pre.proposals@[pid].author@
    &&& post.proposals@[pid].actions.deep_view() == pre.proposals@[pid].actions.deep_view()
    &&& post.proposals@[pid].approvals.deep_view() == insert_approval(
        pre.proposals@[pid].approvals.deep_view(),
        approver,
    )
    &&& post.proposals@[pid].min_approvals == pre.proposals@[pid].min_approvals
    &&& !post.proposals@[pid].executed
    &&& post.events.deep_view() == pre.events.deep_view().push(
        EventView::ApprovedProposal { id: pid },
    )
}

/// The proposal map after an approval was recorded and the proposal marked
/// executed: the approval set grown by the approver, the executed mark set,
/// every other proposal kept.
pub open spec fn executed_mark(
    pre: AppState,
    post: AppState,
    pid: Seq<char>,
    approver: Seq<char>,
) -> bool {
    &&& post.proposals@.dom() == pre.proposals@.dom()
    &&& forall|k: Seq<char>| #![auto] pre.proposals@.contains_key(k) && k != pid
        ==> post.proposals@[k] == pre.proposals@[k]
    &&& post.proposals@.contains_key(pid)
    &&& post.proposals@[pid].executed
    &&& post.proposals@[pid].approvals.deep_view() == insert_approval(
        pre.proposals@[pid].approvals.deep_view(),
        approver,
    )
    &&& post.proposals@[pid].id@ == pre.proposals@[pid].id@
    &&& post.proposals@[pid].author@ == pre.proposals@[pid].author@
    &&& post.proposals@[pid].actions.deep_view() == pre.proposals@[pid].actions.deep_view()
    &&& post.proposals@[pid].min_approvals == pre.proposals@[pid].min_approvals
}

/// The whole-state effect of an approval that reached the threshold on a
/// single-action proposal and executed it in full: the approval recorded,
/// the action's own effect applied, and the proposal marked executed.
pub open spec fn executed_one_action(
    pre: AppState,
    post: AppState,
    pid: Seq<char>,
    approver: Seq<char>,
    a: ActionView,
) -> bool {
    match a {
        ActionView::ExternalCall { .. } | ActionView::Transfer { .. } => {
            &&& note_tables_unchanged(pre, post)
            &&& post.messages == pre.messages
            &&& config_unchanged(pre, post)
            &&& executed_mark(pre, post, pid, approver)
            &&& post.events.deep_view() == pre.events.deep_view().push(
                EventView::ApprovedProposal { id: pid },
            )
        },
        ActionView::SetContextValue { key, value } => {
            &&& context_value_set(pre, post, key, value)
            &&& note_tables_unchanged(pre, post)
            &&& post.messages == pre.messages
            &&& post.min_approvals == pre.min_approvals
            &&& post.active_proposals_limit == pre.active_proposals_limit
            &&& executed_mark(pre, post, pid, approver)
            &&& post.events.deep_view() == pre.events.deep_view().push(
                EventView::ApprovedProposal { id: pid },
            )
        },
        ActionView::SetNumApprovals { num_approvals } => {
            &&& post.min_approvals == num_approvals
            &&& note_tables_unchanged(pre, post)
            &&& post.messages == pre.messages
            &&& post.context_values == pre.context_values
            &&& post.active_proposals_limit == pre.active_proposals_limit
            &&& executed_mark(pre, post, pid, approver)
            &&& post.events.deep_view() == pre.events.deep_view().push(
                EventView::ApprovedProposal { id: pid },
            )
        },
        ActionView::SetActiveProposalsLimit { limit } => {
            &&& post.active_proposals_limit == limit
            &&& note_tables_unchanged(pre, post)
            &&& post.messages == pre.messages
            &&& post.context_values == pre.context_values
            &&& post.min_approvals == pre.min_approvals
            &&& executed_mark(pre, post, pid, approver)
            &&& post.events.deep_view() == pre.events.deep_view().push(
                EventView::ApprovedProposal { id: pid },
            )
        },
        ActionView::DeleteProposal { proposal_id_hex, .. } => {
            &&& note_tables_unchanged(pre, post)
            &&& post.messages == pre.messages
            &&& config_unchanged(pre, post)
            &&& pre.proposals@.contains_key(proposal_id_hex)
            &&& post.proposals@.dom() == pre.proposals@.dom().remove(proposal_id_hex)
            &&& forall|k: Seq<char>| #![auto]
                pre.proposals@.contains_key(k) && k != pid && k != proposal_id_hex
                    ==> post.proposals@[k] == pre.proposals@[k]
            &&& (proposal_id_hex != pid ==> post.proposals@.contains_key(pid)
                && post.proposals@[pid].executed
                && post.proposals@[pid].approvals.deep_view() == insert_approval(
                    pre.proposals@[pid].approvals.deep_view(),
                    approver,
                ))
            &&& post.events.deep_view() == pre.events.deep_view().push(
                EventView::ApprovedProposal { id: pid },
            )
        },
        ActionView::CreateNote { note } => {
            &&& note_created(pre, post, note)
            &&& post.messages == pre.messages
            &&& config_unchanged(pre, post)
            &&& executed_mark(pre, post, pid, approver)
            &&& post.events.deep_view() == pre.events.deep_view().push(
                EventView::ApprovedProposal { id: pid },
            ).push(EventView::NoteCreated { id: note.id })
        },
        ActionView::ShareNote { note_id, recipient } => {
            &&& note_shared(pre, post, pre.proposals@[pid].author@, note_id, recipient)
            &&& post.messages == pre.messages
            &&& config_unchanged(pre, post)
            &&& executed_mark(pre, post, pid, approver)
            &&& post.events.deep_view() == pre.events.deep_view().push(
                EventView::ApprovedProposal { id: pid },
            ).push(EventView::NoteShared { id: note_id, with: recipient })
        },
    }
}

/// What a proposal's approval records: still short of its threshold, a
/// no-op on an already executed proposal, fully executed, or halted at the
/// first failing action with the effects issued so far.
#[derive(Debug)]
pub enum ApproveOutcome {
    Pending,
    AlreadyExecuted,
    Executed { effects: Vec<ExternalEffect> },
    Halted { completed: usize, effects: Vec<ExternalEffect> },
}

impl AppState {
    /// Sets the approval threshold that newly created proposals capture.
    pub fn set_min_approvals(&mut self, n: u32)
        requires
            old(self).wf(),
        ensures
            final(self).wf(),
            final(self).min_approvals == n,
            final(self).notes == old(self).notes,
            final(self).version_history == old(self).version_history,
            final(self).user_permissions == old(self).user_permissions,
            final(self).shared_keys == old(self).shared_keys,
            final(self).messages == old(self).messages,
            final(self).proposals == old(self).proposals,
            final(self).context_values == old(self).context_values,
            final(self).active_proposals_limit == old(self).active_proposals_limit,
            final(self).events == old(self).events,
    {
        self.min_approvals = n;
        proof {
            let post = *self;
            let pre = *old(self);
            assert forall|u: Seq<char>, k: Seq<char>|
                #![trigger post.has_perm(u, k)]
                #![trigger is_shared_with(post.notes@[k], u)]
                post.has_perm(u, k)
                    <==> post.notes@.contains_key(k) && is_shared_with(post.notes@[k], u) by {
                assert(pre.has_perm(u, k)
                    <==> pre.notes@.contains_key(k) && is_shared_with(pre.notes@[k], u));
                assert(post.has_perm(u, k) == pre.has_perm(u, k));
            }
        }
    }

    /// The discussion thread of a proposal; an unknown id has an empty one.
    pub fn get_proposal_messages(&self, proposal_id: &str) -> (r: Result<Vec<Message>, NoteError>)
        requires
            self.wf(),
        ensures
            r is Ok,
            self.messages@.contains_key(proposal_id@)
                ==> r->Ok_0@.len() == self.messages@[proposal_id@]@.len()
                    && (forall|j: int| #![auto] 0 <= j < r->Ok_0@.len()
                        ==> r->Ok_0@[j]@ == self.messages@[proposal_id@]@[j]@),
            !self.messages@.contains_key(proposal_id@) ==> r->Ok_0@.len() == 0,
    {
        match self.messages.get(proposal_id) {
            Some(msgs) => Ok(clone_messages(msgs)),
            None => Ok(Vec::new()),
        }
    }

    /// Appends a message to a proposal's thread, starting the thread if none
    /// exists yet.
    pub fn send_proposal_messages(&mut self, proposal_id: &str, message: Message) -> (r: Result<
        (),
        NoteError,
    >)
        requires
            old(self).wf(),
        ensures
            final(self).wf(),
            r is Ok,
            final(self).messages@.dom() == old(self).messages@.dom().insert(proposal_id@),
            final(self).messages@[proposal_id@]@.len() == (if old(self).messages@.contains_key(
                proposal_id@,
            ) {
                old(self).messages@[proposal_id@]@.len() + 1
            } else {
                1
            }),
            final(self).messages@[proposal_id@]@.last()@ == message@,
            old(self).messages@.contains_key(proposal_id@) ==> forall|j: int| #![auto]
                0 <= j < old(self).messages@[proposal_id@]@.len()
                    ==> final(self).messages@[proposal_id@]@[j]@
                        == old(self).messages@[proposal_id@]@[j]@,
            forall|k: Seq<char>| #![auto] old(self).messages@.contains_key(k) && k != proposal_id@
                ==> final(self).messages@[k] == old(self).messages@[k],
            final(self).notes == old(self).notes,
            final(self).version_history == old(self).version_history,
            final(self).user_permissions == old(self).user_permissions,
            final(self).shared_keys == old(self).shared_keys,
            final(self).proposals == old(self).proposals,
            final(self).context_values == old(self).context_values,
            final(self).min_approvals == old(self).min_approvals,
            final(self).active_proposals_limit == old(self).active_proposals_limit,
            final(self).events == old(self).events,
    {
        let mut msgs = match self.messages.get(proposal_id) {
            Some(m) => clone_messages(m),
            None => Vec::new(),
        };
        msgs.push(message);
        self.messages.insert(proposal_id.to_owned(), msgs);
        proof {
            let post = *self;
            let pre = *old(self);
            assert forall|u: Seq<char>, k: Seq<char>|
                #![trigger post.has_perm(u, k)]
                #![trigger is_shared_with(post.notes@[k], u)]
                post.has_perm(u, k)
                    <==> post.notes@.contains_key(k) && is_shared_with(post.notes@[k], u) by {
                assert(pre.has_perm(u, k)
                    <==> pre.notes@.contains_key(k) && is_shared_with(pre.notes@[k], u));
                assert(post.has_perm(u, k) == pre.has_perm(u, k));
            }
            assert(post.messages@.dom() =~= pre.messages@.dom().insert(proposal_id@));
        }
        Ok(())
    }

    /// Validates a request and registers it as an open proposal under the
    /// caller-supplied id, with no approvals and the current threshold.
    /// A malformed request fails here, never at execution.
    pub fn create_new_proposal(
        &mut self,
        caller: &str,
        proposal_id: &str,
        request: CreateProposalRequest,
    ) -> (r: Result<String, NoteError>)
        requires
            old(self).wf(),
        ensures
            final(self).wf(),
            r is Ok <==> valid_request(request) && !old(self).proposals@.contains_key(
                proposal_id@,
            ),
            !valid_request(request) ==> r == Err::<String, NoteError>(NoteError::InvalidAction),
            valid_request(request) && old(self).proposals@.contains_key(proposal_id@)
                ==> r == Err::<String, NoteError>(NoteError::DuplicateId),
            r is Err ==> *final(self) == *old(self),
            r is Ok ==> r->Ok_0@ == proposal_id@,
            r is Ok ==> final(self).proposals@.dom()
                == old(self).proposals@.dom().insert(proposal_id@)
                && (forall|k: Seq<char>| #![auto] old(self).proposals@.contains_key(k)
                    && k != proposal_id@
                    ==> final(self).proposals@[k] == old(self).proposals@[k])
                && final(self).proposals@[proposal_id@].id@ == proposal_id@
                && final(self).proposals@[proposal_id@].author@ == caller@
                && final(self).proposals@[proposal_id@].actions@.len() == 1
                && final(self).proposals@[proposal_id@].actions@[0]@ == requested_action(request)
                && final(self).proposals@[proposal_id@].approvals@.len() == 0
                && final(self).proposals@[proposal_id@].min_approvals
                    == old(self).min_approvals
                && !final(self).proposals@[proposal_id@].executed,
            r is Ok ==> final(self).messages@.dom()
                == old(self).messages@.dom().insert(proposal_id@)
                && (forall|k: Seq<char>| #![auto] old(self).messages@.contains_key(k)
                    ==> final(self).messages@[k] == old(self).messages@[k])
                && (!old(self).messages@.contains_key(proposal_id@)
                    ==> final(self).messages@[proposal_id@]@.len() == 0),
            final(self).notes == old(self).notes,
            final(self).version_history == old(self).version_history,
            final(self).user_permissions == old(self).user_permissions,
            final(self).shared_keys == old(self).shared_keys,
            final(self).context_values == old(self).context_values,
            final(self).min_approvals == old(self).min_approvals,
            final(self).active_proposals_limit == old(self).active_proposals_limit,
            r is Ok ==> final(self).events.deep_view() == old(self).events.deep_view().push(
                EventView::ProposalCreated { id: proposal_id@ },
            ),
            r is Err ==> final(self).events == old(self).events,
    {
        let action = match validate_request(request) {
            Ok(a) => a,
            Err(e) => {
                return Err(e);
            },
        };
        if self.proposals.contains_key(proposal_id) {
            return Err(NoteError::DuplicateId);
        }
        let pid: String = proposal_id.to_owned();
        let ghost pidv = proposal_id@;
        let mut actions: Vec<Action> = Vec::new();
        actions.push(action);
        let p = Proposal {
            id: pid.clone(),
            author: caller.to_owned(),
            actions,
            approvals: Vec::new(),
            min_approvals: self.min_approvals,
            executed: false,
        };
        self.proposals.insert(pid.clone(), p);
        if !self.messages.contains_key(proposal_id) {
            self.messages.insert(pid.clone(), Vec::new());
        }
        let ghost pre_events_vec = self.events;
        let ev = Event::ProposalCreated { id: pid.clone() };
        let ghost evg = ev;
        self.events.push(ev);
        proof {
            let post = *self;
            let pre = *old(self);
            lemma_vec_push_deep(pre_events_vec, self.events, evg);
            assert(evg@ == (EventView::ProposalCreated { id: pidv }));
            assert(post.proposals@.dom() =~= pre.proposals@.dom().insert(pidv));
            assert(post.messages@.dom() =~= pre.messages@.dom().insert(pidv));
            assert forall|u: Seq<char>, k: Seq<char>|
                #![trigger post.has_perm(u, k)]
                #![trigger is_shared_with(post.notes@[k], u)]
                post.has_perm(u, k)
                    <==> post.notes@.contains_key(k) && is_shared_with(post.notes@[k], u) by {
                assert(pre.has_perm(u, k)
                    <==> pre.notes@.contains_key(k) && is_shared_with(pre.notes@[k], u));
                assert(post.has_perm(u, k) == pre.has_perm(u, k));
            }
            assert(post.wf());
        }
        Ok(pid)
    }

    /// Executes one validated action. Local actions apply to this state at
    /// once; `ExternalCall` and `Transfer` are handed back as a deferred
    /// effect for the runtime to deliver. The match is exhaustive: a
    /// validated action has no unknown variant.
    pub fn apply_action(&mut self, author: &str, action: Action) -> (r: Result<
        Option<ExternalEffect>,
        NoteError,
    >)
        requires
            old(self).wf(),
        ensures
            final(self).wf(),
            final(self).events.deep_view().len() >= old(self).events.deep_view().len(),
            final(self).events.deep_view().take(old(self).events.deep_view().len() as int)
                == old(self).events.deep_view(),
            final(self).proposals == old(self).proposals || (action@ matches
                ActionView::DeleteProposal { proposal_id_hex, .. }
                && final(self).proposals@ == old(self).proposals@.remove(proposal_id_hex)),
            r is Ok ==> action_effect(*old(self), *final(self), author@, action@),
            r is Err ==> *final(self) == *old(self),
            (action@ matches ActionView::ExternalCall { receiver_id, method_name, args, deposit }
                ==> r is Ok && r->Ok_0 is Some
                    && r->Ok_0->0@ == (ExternalEffectView::Call {
                        receiver_id,
                        method_name,
                        args,
                        deposit,
                    })),
            (action@ matches ActionView::Transfer { receiver_id, amount }
                ==> r is Ok && r->Ok_0 is Some
                    && r->Ok_0->0@ == (ExternalEffectView::Transfer { receiver_id, amount })),
            action@ is SetContextValue || action@ is SetNumApprovals
                || action@ is SetActiveProposalsLimit ==> r is Ok && r->Ok_0 is None,
            (action@ matches ActionView::DeleteProposal { proposal_id_hex, .. }
                ==> (r is Ok <==> old(self).proposals@.contains_key(proposal_id_hex))
                    && (r is Ok ==> r->Ok_0 is None)
                    && (r is Err ==> r->Err_0 == NoteError::NotFound)),
            (action@ matches ActionView::CreateNote { note }
                ==> (r is Ok <==> !old(self).notes@.contains_key(note.id)
                        && note.shared_with.len() == 0)
                    && (r is Ok ==> r->Ok_0 is None)),
            (action@ matches ActionView::ShareNote { note_id, recipient }
                ==> (r is Ok <==> old(self).notes@.contains_key(note_id)
                        && old(self).notes@[note_id].owner@ == author@
                        && !is_shared_with(old(self).notes@[note_id], recipient)
                        && recipient != author@)
                    && (r is Ok ==> r->Ok_0 is None)),
    {
        let ghost pre_events = self.events.deep_view();
        let r: Result<Option<ExternalEffect>, NoteError> = match action {
            Action::ExternalCall { receiver_id, method_name, args, deposit } => Ok(Some(
                ExternalEffect::Call { receiver_id, method_name, args, deposit },
            )),
            Action::Transfer { receiver_id, amount } => Ok(Some(ExternalEffect::Transfer {
                receiver_id,
                amount,
            })),
            Action::SetContextValue { key, value } => {
                self.context_values.insert(key, value);
                Ok(None)
            },
            Action::SetNumApprovals { num_approvals } => {
                self.min_approvals = num_approvals;
                Ok(None)
            },
            Action::SetActiveProposalsLimit { limit } => {
                self.active_proposals_limit = limit;
                Ok(None)
            },
            Action::DeleteProposal { proposal_id_hex, proposal_id_raw: _ } => {
                if self.proposals.contains_key(proposal_id_hex.as_str()) {
                    self.proposals.remove(proposal_id_hex.as_str());
                    Ok(None)
                } else {
                    Err(NoteError::NotFound)
                }
            },
            Action::CreateNote { note } => {
                match self.create_note(note) {
                    Ok(()) => Ok(None),
                    Err(e) => Err(e),
                }
            },
            Action::ShareNote { note_id, recipient } => {
                match self.share_note(author, note_id.as_str(), recipient.as_str()) {
                    Ok(()) => Ok(None),
                    Err(e) => Err(e),
                }
            },
        };
        proof {
            let post = *self;
            let pre = *old(self);
            assert(post.events.deep_view().take(pre_events.len() as int) =~= pre_events);
            if post.notes == pre.notes && post.user_permissions == pre.user_permissions {
                assert forall|u: Seq<char>, k: Seq<char>|
                    #![trigger post.has_perm(u, k)]
                    #![trigger is_shared_with(post.notes@[k], u)]
                    post.has_perm(u, k)
                        <==> post.notes@.contains_key(k) && is_shared_with(post.notes@[k], u) by {
                    assert(pre.has_perm(u, k)
                        <==> pre.notes@.contains_key(k) && is_shared_with(pre.notes@[k], u));
                    assert(post.has_perm(u, k) == pre.has_perm(u, k));
                }
            }
        }
        r
    }

    /// Reads a stored proposal.
    pub fn get_proposal(&self, proposal_id: &str) -> (r: Result<&Proposal, NoteError>)
        requires
            self.wf(),
        ensures
            r is Ok <==> self.proposals@.contains_key(proposal_id@),
            r is Ok ==> *r->Ok_0 == self.proposals@[proposal_id@],
            r is Err ==> r->Err_0 == NoteError::NotFound,
    {
        match self.proposals.get(proposal_id) {
            Some(p) => Ok(p),
            None => Err(NoteError::NotFound),
        }
    }

    /// Records an approval on an open proposal. A duplicate approver changes
    /// nothing; once the approval count reaches the proposal's threshold the
    /// actions are executed in order, stopping at the first failure (the
    /// proposal then stays open with its approvals intact). A proposal
    /// executes at most once: approving an executed proposal is a no-op.
    /// For the single-action proposals that `create_new_proposal` registers,
    /// the contract pins the executed action's whole state effect
    /// (`executed_one_action`); a halt before the first action leaves the
    /// state exactly as the approval alone did (`approval_recorded`).
    pub fn approve_proposal(&mut self, approver: &str, proposal_id: &str) -> (r: Result<
        ApproveOutcome,
        NoteError,
    >)
        requires
            old(self).wf(),
        ensures
            final(self).wf(),
            r is Err <==> !old(self).proposals@.contains_key(proposal_id@),
            r is Err ==> r->Err_0 == NoteError::NotFound && *final(self) == *old(self),
            r is Ok && old(self).proposals@[proposal_id@].executed
                ==> r->Ok_0 is AlreadyExecuted && *final(self) == *old(self),
            r is Ok && !old(self).proposals@[proposal_id@].executed
                ==> (r->Ok_0 is Pending <==> insert_approval(
                    old(self).proposals@[proposal_id@].approvals.deep_view(),
                    approver@,
                ).len() < old(self).proposals@[proposal_id@].min_approvals),
            r is Ok && !old(self).proposals@[proposal_id@].executed
                ==> ((r->Ok_0 is Executed || r->Ok_0 is Halted) <==> insert_approval(
                    old(self).proposals@[proposal_id@].approvals.deep_view(),
                    approver@,
                ).len() >= old(self).proposals@[proposal_id@].min_approvals),
            r is Ok && !old(self).proposals@[proposal_id@].executed
                ==> final(self).events.deep_view().len()
                        >= old(self).events.deep_view().len() + 1
                    && final(self).events.deep_view().take(
                        old(self).events.deep_view().len() as int + 1,
                    ) == old(self).events.deep_view().push(
                        EventView::ApprovedProposal { id: proposal_id@ },
                    ),
            r is Ok && r->Ok_0 is Pending ==> approval_recorded(
                *old(self),
                *final(self),
                proposal_id@,
                approver@,
            ),
            r is Ok ==> (r->Ok_0 matches ApproveOutcome::Halted { completed, effects }
                ==> completed < old(self).proposals@[proposal_id@].actions@.len()
                    && (completed == 0 ==> approval_recorded(
                        *old(self),
                        *final(self),
                        proposal_id@,
                        approver@,
                    ))
                    && effects.deep_view() == effects_of(
                        old(self).proposals@[proposal_id@].actions.deep_view().take(
                            completed as int,
                        ),
                    )
                    && (final(self).proposals@.contains_key(proposal_id@)
                        ==> final(self).proposals@[proposal_id@].approvals.deep_view()
                                == insert_approval(
                                old(self).proposals@[proposal_id@].approvals.deep_view(),
                                approver@,
                            )
                            && !final(self).proposals@[proposal_id@].executed)),
            r is Ok ==> (r->Ok_0 matches ApproveOutcome::Executed { effects }
                ==> effects.deep_view() == effects_of(
                        old(self).proposals@[proposal_id@].actions.deep_view(),
                    )
                    && (final(self).proposals@.contains_key(proposal_id@)
                        ==> final(self).proposals@[proposal_id@].approvals.deep_view()
                                == insert_approval(
                                old(self).proposals@[proposal_id@].approvals.deep_view(),
                                approver@,
                            )
                            && final(self).proposals@[proposal_id@].executed)),
            r is Ok && !old(self).proposals@[proposal_id@].executed
                && old(self).proposals@[proposal_id@].actions@.len() == 1
                ==> (r->Ok_0 is Executed ==> executed_one_action(
                    *old(self),
                    *final(self),
                    proposal_id@,
                    approver@,
                    old(self).proposals@[proposal_id@].actions.deep_view()[0],
                )),
    {
        let p = match self.proposals.get(proposal_id) {
            None => {
                return Err(NoteError::NotFound);
            },
            Some(p) => p,
        };
        if p.executed {
            return Ok(ApproveOutcome::AlreadyExecuted);
        }
        let ghost pidv = proposal_id@;
        let ghost pre = *old(self);
        let ghost oldp = self.proposals@[pidv];

        let mut approvals = clone_string_vec(&p.approvals);
        if !contains_string(&p.approvals, approver) {
            approvals.push(approver.to_owned());
        }
        let ghost newap = approvals.deep_view();
        proof {
            assert(newap =~= insert_approval(oldp.approvals.deep_view(), approver@));
            assert(no_dups(newap)) by {
                let base = oldp.approvals.deep_view();
                assert(no_dups(base));
                if !base.contains(approver@) {
                    assert forall|a: int, b: int| 0 <= a < b < newap.len()
                        implies newap[a] != newap[b] by {
                        if b == base.len() {
                            assert(newap[a] == base[a]);
                            assert(base.contains(base[a])) by {
                                assert(base[a] == base[a]);
                            }
                            assert(newap[b] == approver@);
                        } else {
                            assert(newap[a] == base[a]);
                            assert(newap[b] == base[b]);
                        }
                    }
                }
            }
        }
        let cnt = approvals.len();
        let actions = clone_actions(&p.actions);
        let author = p.author.clone();
        let min = p.min_approvals;
        let pid_s = p.id.clone();
        let np = Proposal {
            id: p.id.clone(),
            author: p.author.clone(),
            actions: clone_actions(&p.actions),
            approvals,
            min_approvals: min,
            executed: false,
        };
        let ghost npg = np;
        proof {
            assert(npg.actions.deep_view() =~= oldp.actions.deep_view());
            assert(actions.deep_view() =~= oldp.actions.deep_view());
        }
        self.proposals.insert(pid_s.clone(), np);
        let ghost pre_events_vec = self.events;
        let ev = Event::ApprovedProposal { id: pid_s.clone() };
        let ghost evg = ev;
        self.events.push(ev);
        proof {
            let post = *self;
            lemma_vec_push_deep(pre_events_vec, self.events, evg);
            assert(evg@ == (EventView::ApprovedProposal { id: pidv }));
            assert(post.proposals@.dom() =~= pre.proposals@.dom());
            assert forall|u: Seq<char>, k: Seq<char>|
                #![trigger post.has_perm(u, k)]
                #![trigger is_shared_with(post.notes@[k], u)]
                post.has_perm(u, k)
                    <==> post.notes@.contains_key(k) && is_shared_with(post.notes@[k], u) by {
                assert(pre.has_perm(u, k)
                    <==> pre.notes@.contains_key(k) && is_shared_with(pre.notes@[k], u));
                assert(post.has_perm(u, k) == pre.has_perm(u, k));
            }
            assert(post.wf());
        }
        let ghost recorded = *self;
        proof {
            assert(pre_events_vec.deep_view() =~= pre.events.deep_view());
            assert(approval_recorded(pre, recorded, pidv, approver@));
        }
        if cnt < (min as usize) {
            return Ok(ApproveOutcome::Pending);
        }

        let ghost base_events = self.events.deep_view();
        let mut effects: Vec<ExternalEffect> = Vec::new();
        let na = actions.len();
        let mut k: usize = 0;
        while k < na
            invariant
                na == actions@.len(),
                k <= na,
                self.wf(),
                pre == *old(self),
                pre.proposals@.contains_key(pidv),
                oldp == pre.proposals@[pidv],
                !oldp.executed,
                newap == insert_approval(oldp.approvals.deep_view(), approver@),
                newap.len() >= oldp.min_approvals,
                author@ == oldp.author@,
                pidv == proposal_id@,
                actions.deep_view() =~= oldp.actions.deep_view(),
                effects.deep_view() =~= effects_of(actions.deep_view().take(k as int)),
                self.events.deep_view().len() >= base_events.len(),
                self.events.deep_view().take(base_events.len() as int) == base_events,
                base_events.len() == pre.events.deep_view().len() + 1,
                base_events.take(pre.events.deep_view().len() as int + 1)
                    == pre.events.deep_view().push(EventView::ApprovedProposal { id: pidv }),
                self.proposals@.contains_key(pidv) ==> self.proposals@[pidv] == npg,
                npg.approvals.deep_view() == newap,
                !npg.executed,
                approval_recorded(pre, recorded, pidv, approver@),
                k == 0 ==> *self == recorded,
                na == 1 && k == 1 ==> action_effect(
                    recorded,
                    *self,
                    oldp.author@,
                    actions.deep_view()[0],
                ),
            decreases na - k,
        {
            let ghost mid_events = self.events.deep_view();
            let a = actions[k].clone();
            let ghost av = a@;
            proof {
                assert(av == actions.deep_view()[k as int]);
            }
            match self.apply_action(author.as_str(), a) {
                Ok(opt) => {
                    let ghost pre_eff = effects.deep_view();
                    match opt {
                        Some(e) => {
                            let ghost eg = e;
                            effects.push(e);
                            proof {
                                assert(effects.deep_view() =~= pre_eff.push(eg@)) by {
                                    assert forall|j: int| 0 <= j < effects@.len()
                                        implies #[trigger] effects.deep_view()[j]
                                            == pre_eff.push(eg@)[j] by {
                                        assert(effects.deep_view()[j] == effects@[j]@);
                                    }
                                }
                            }
                        },
                        None => {},
                    }
                    proof {
                        let t1 = actions.deep_view().take(k + 1);
                        assert(t1.drop_last() =~= actions.deep_view().take(k as int));
                        assert(t1.last() == av);
                        assert(effects.deep_view() =~= effects_of(t1));
                        assert(self.events.deep_view().take(base_events.len() as int)
                            =~= base_events) by {
                            assert(self.events.deep_view().take(mid_events.len() as int)
                                == mid_events);
                            assert forall|j: int| 0 <= j < base_events.len()
                                implies #[trigger] self.events.deep_view().take(
                                    base_events.len() as int,
                                )[j] == base_events[j] by {
                                assert(self.events.deep_view()[j]
                                    == self.events.deep_view().take(mid_events.len() as int)[j]);
                                assert(mid_events[j]
                                    == mid_events.take(base_events.len() as int)[j]);
                            }
                        }
                    }
                },
                Err(_) => {
                    proof {
                        assert(effects.deep_view()
                            == effects_of(oldp.actions.deep_view().take(k as int)));
                        assert(actions.deep_view().len() == actions@.len());
                        assert(oldp.actions.deep_view().len() == oldp.actions@.len());
                        assert(k < oldp.actions@.len());
                        if k == 0 {
                            assert(*self == recorded);
                            assert(approval_recorded(pre, *self, pidv, approver@));
                        }
                    }
                    return Ok(ApproveOutcome::Halted { completed: k, effects });
                },
            }
            k = k + 1;
        }

        proof {
            assert(actions.deep_view().take(na as int) =~= actions.deep_view());
            assert(actions.deep_view().len() == actions@.len());
            assert(oldp.actions.deep_view().len() == oldp.actions@.len());
        }
        let ghost after_actions = *self;
        if self.proposals.contains_key(proposal_id) {
            let p2 = match self.proposals.get(proposal_id) {
                Some(p2) => p2,
                None => {
                    return Err(NoteError::NotFound);
                },
            };
            let ep = Proposal {
                id: p2.id.clone(),
                author: p2.author.clone(),
                actions: clone_actions(&p2.actions),
                approvals: clone_string_vec(&p2.approvals),
                min_approvals: p2.min_approvals,
                executed: true,
            };
            let ghost mid2 = *self;
            proof {
                assert(mid2 == after_actions);
                assert(mid2.proposals@[pidv] == npg);
                assert(ep.approvals.deep_view() =~= newap);
                assert(ep.actions.deep_view() =~= npg.actions.deep_view());
                assert(newap.len() >= min);
            }
            self.proposals.insert(proposal_id.to_owned(), ep);
            proof {
                let post = *self;
                assert(post.proposals@.dom() =~= mid2.proposals@.dom());
                assert(proposal_wf(post.proposals@[pidv], pidv));
                assert forall|u: Seq<char>, k2: Seq<char>|
                    #![trigger post.has_perm(u, k2)]
                    #![trigger is_shared_with(post.notes@[k2], u)]
                    post.has_perm(u, k2)
                        <==> post.notes@.contains_key(k2)
                            && is_shared_with(post.notes@[k2], u) by {
                    assert(mid2.has_perm(u, k2)
                        <==> mid2.notes@.contains_key(k2)
                            && is_shared_with(mid2.notes@[k2], u));
                    assert(post.has_perm(u, k2) == mid2.has_perm(u, k2));
                }
                assert(post.wf());
                assert(post.events.deep_view().take(base_events.len() as int) == base_events) by {
                    assert(post.events == mid2.events);
                }
                if na == 1 {
                    let a0 = actions.deep_view()[0];
                    assert(action_effect(recorded, after_actions, oldp.author@, a0));
                    assert(post.proposals@.contains_key(pidv));
                    assert(post.proposals@[pidv] == ep);
                    match a0 {
                        ActionView::ExternalCall { .. } => {
                            assert(executed_one_action(pre, post, pidv, approver@, a0));
                        },
                        ActionView::Transfer { .. } => {
                            assert(executed_one_action(pre, post, pidv, approver@, a0));
                        },
                        ActionView::SetContextValue { .. } => {
                            assert(executed_one_action(pre, post, pidv, approver@, a0));
                        },
                        ActionView::SetNumApprovals { .. } => {
                            assert(executed_one_action(pre, post, pidv, approver@, a0));
                        },
                        ActionView::SetActiveProposalsLimit { .. } => {
                            assert(executed_one_action(pre, post, pidv, approver@, a0));
                        },
                        ActionView::DeleteProposal { proposal_id_hex: hexv, .. } => {
                            assert(hexv != pidv) by {
                                if hexv == pidv {
                                    assert(!after_actions.proposals@.contains_key(pidv));
                                }
                            }
                            assert(post.proposals@.dom()
                                =~= pre.proposals@.dom().remove(hexv));
                            assert(executed_one_action(pre, post, pidv, approver@, a0));
                        },
                        ActionView::CreateNote { .. } => {
                            assert(executed_one_action(pre, post, pidv, approver@, a0));
                        },
                        ActionView::ShareNote { note_id: nidv, recipient: recv } => {
                            assert forall|u: Seq<char>, k2: Seq<char>|
                                #![trigger post.has_perm(u, k2)]
                                #![trigger pre.has_perm(u, k2)]
                                post.has_perm(u, k2)
                                    <==> pre.has_perm(u, k2)
                                        || (u == recv && k2 == nidv) by {
                                assert(post.has_perm(u, k2)
                                    == after_actions.has_perm(u, k2));
                                assert(recorded.has_perm(u, k2) == pre.has_perm(u, k2));
                                assert(after_actions.has_perm(u, k2)
                                    <==> recorded.has_perm(u, k2)
                                        || (u == recv && k2 == nidv));
                            }
                            assert(pre.proposals@[pidv].author@ == oldp.author@);
                            assert(executed_one_action(pre, post, pidv, approver@, a0));
                        },
                    }
                }
            }
        } else {
            proof {
                if na == 1 {
                    let a0 = actions.deep_view()[0];
                    let post = *self;
                    assert(post == after_actions);
                    assert(action_effect(recorded, post, oldp.author@, a0));
                    match a0 {
                        ActionView::DeleteProposal { proposal_id_hex: hexv, .. } => {
                            // the one way the proposal can be gone after its own
                            // execution: it deleted itself
                            assert(hexv == pidv) by {
                                if hexv != pidv {
                                    assert(recorded.proposals@.contains_key(pidv));
                                    assert(post.proposals@.contains_key(pidv));
                                }
                            }
                            assert(post.proposals@.dom()
                                =~= pre.proposals@.dom().remove(hexv));
                            assert(executed_one_action(pre, post, pidv, approver@, a0));
                        },
                        _ => {
                            // every other action leaves the proposal map alone,
                            // so the proposal would still be present
                            assert(post.proposals == recorded.proposals);
                            assert(post.proposals@.contains_key(pidv));
                            assert(false);
                        },
                    }
                }
            }
        }
        Ok(ApproveOutcome::Executed { effects })
    }
}

} // verus!
