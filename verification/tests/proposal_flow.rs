use notesync::errors::NoteError;
use notesync::notes::{AppState, EncryptedNote, NoteMetadata};
use notesync::proposals::{ApproveOutcome, CreateProposalRequest, ExternalEffect, ProposalParams};

fn fresh_note(id: &str, owner: &str) -> EncryptedNote {
    EncryptedNote {
        id: id.to_string(),
        encrypted_content: b"payload".to_vec(),
        metadata: NoteMetadata {
            title: "Proposed".to_string(),
            tags: Vec::new(),
            is_pinned: false,
            encryption_version: 1,
        },
        owner: owner.to_string(),
        shared_with: Vec::new(),
        created_at: 1,
        updated_at: 1,
    }
}

fn create_note_request(id: &str, owner: &str) -> CreateProposalRequest {
    let mut params = ProposalParams::empty();
    params.note = Some(fresh_note(id, owner));
    CreateProposalRequest { action_type: "CreateNote".to_string(), params }
}

#[test]
fn threshold_gates_execution() {
    let mut s = AppState::init();
    s.set_min_approvals(2);
    s.create_new_proposal("alice", "p1", create_note_request("n9", "alice")).unwrap();

    // one approval: still open
    let first = s.approve_proposal("alice", "p1").unwrap();
    assert!(matches!(first, ApproveOutcome::Pending));
    assert_eq!(s.get_note("alice", "n9").unwrap_err(), NoteError::NotFound);

    // second distinct identity: executes, and the note exists
    let second = s.approve_proposal("bob", "p1").unwrap();
    assert!(matches!(second, ApproveOutcome::Executed { .. }));
    assert!(s.get_note("alice", "n9").is_ok());
}

#[test]
fn duplicate_approval_is_a_no_op() {
    let mut s = AppState::init();
    s.set_min_approvals(2);
    s.create_new_proposal("alice", "p1", create_note_request("n9", "alice")).unwrap();

    assert!(matches!(s.approve_proposal("alice", "p1").unwrap(), ApproveOutcome::Pending));
    // the same identity again: were it counted twice, this would execute
    assert!(matches!(s.approve_proposal("alice", "p1").unwrap(), ApproveOutcome::Pending));
    assert_eq!(s.get_proposal("p1").unwrap().approvals, vec!["alice".to_string()]);
    assert!(matches!(
        s.approve_proposal("bob", "p1").unwrap(),
        ApproveOutcome::Executed { .. }
    ));
    let p = s.get_proposal("p1").unwrap();
    assert!(p.executed);
    assert_eq!(p.approvals.len(), 2);
}

#[test]
fn request_builders_carry_their_fields() {
    let rq = CreateProposalRequest::new_note_action(fresh_note("n5", "alice"));
    assert_eq!(rq.action_type, "CreateNote");
    assert_eq!(rq.params.note.as_ref().unwrap().id, "n5");

    let rq2 = CreateProposalRequest::new_share_action("n5".to_string(), "bob".to_string());
    assert_eq!(rq2.action_type, "ShareNote");
    assert_eq!(rq2.params.note_id.as_deref(), Some("n5"));
    assert_eq!(rq2.params.recipient.as_deref(), Some("bob"));

    // a built request passes validation end to end
    let mut st = AppState::init();
    st.create_note(fresh_note("n5", "alice")).unwrap();
    st.create_new_proposal("alice", "p1", rq2).unwrap();
    assert!(matches!(
        st.approve_proposal("alice", "p1").unwrap(),
        ApproveOutcome::Executed { .. }
    ));
    assert_eq!(
        st.get_shared_context("n5").unwrap(),
        vec!["bob".to_string()]
    );
}

#[test]
fn unknown_proposal_lookup_fails() {
    let s = AppState::init();
    assert_eq!(s.get_proposal("ghost").unwrap_err(), NoteError::NotFound);
}

#[test]
fn executes_at_most_once() {
    let mut s = AppState::init();
    s.create_new_proposal("alice", "p1", create_note_request("n9", "alice")).unwrap();
    assert!(matches!(
        s.approve_proposal("alice", "p1").unwrap(),
        ApproveOutcome::Executed { .. }
    ));
    // re-approval after execution is a no-op, not a re-execution: a rerun
    // of the CreateNote action would fail AlreadyExists and halt instead
    assert!(matches!(
        s.approve_proposal("carol", "p1").unwrap(),
        ApproveOutcome::AlreadyExecuted
    ));
    assert!(s.get_note("alice", "n9").is_ok());
}

#[test]
fn failed_action_halts_and_keeps_the_proposal_open() {
    let mut s = AppState::init();
    s.create_note(fresh_note("n9", "alice")).unwrap();
    s.create_new_proposal("alice", "p1", create_note_request("n9", "alice")).unwrap();
    // the note already exists, so execution halts at action 0
    match s.approve_proposal("alice", "p1").unwrap() {
        ApproveOutcome::Halted { completed, effects } => {
            assert_eq!(completed, 0);
            assert!(effects.is_empty());
        },
        other => panic!("expected a halt, got {:?}", outcome_name(&other)),
    }
    // approvals survive a halt: a later retry by another identity re-runs it
    assert!(matches!(
        s.approve_proposal("bob", "p1").unwrap(),
        ApproveOutcome::Halted { .. }
    ));
}

fn outcome_name(o: &ApproveOutcome) -> &'static str {
    match o {
        ApproveOutcome::Pending => "pending",
        ApproveOutcome::AlreadyExecuted => "already executed",
        ApproveOutcome::Executed { .. } => "executed",
        ApproveOutcome::Halted { .. } => "halted",
    }
}

#[test]
fn external_call_becomes_a_deferred_effect() {
    let mut s = AppState::init();
    let mut params = ProposalParams::empty();
    params.receiver_id = Some("note_storage".to_string());
    params.method_name = Some("store_note".to_string());
    params.args = Some("{}".to_string());
    params.deposit = Some("250".to_string());
    let rq = CreateProposalRequest { action_type: "ExternalFunctionCall".to_string(), params };
    s.create_new_proposal("alice", "p1", rq).unwrap();
    match s.approve_proposal("alice", "p1").unwrap() {
        ApproveOutcome::Executed { effects } => {
            assert_eq!(effects.len(), 1);
            match &effects[0] {
                ExternalEffect::Call { receiver_id, method_name, args, deposit } => {
                    assert_eq!(receiver_id, "note_storage");
                    assert_eq!(method_name, "store_note");
                    assert_eq!(args, "{}");
                    assert_eq!(*deposit, 250u128);
                },
                ExternalEffect::Transfer { .. } => panic!("wrong effect"),
            }
        },
        _ => panic!("expected execution"),
    }
}

#[test]
fn transfer_amount_must_parse() {
    let mut s = AppState::init();
    let mut params = ProposalParams::empty();
    params.receiver_id = Some("bob".to_string());
    params.amount = Some("12x".to_string());
    let rq = CreateProposalRequest { action_type: "Transfer".to_string(), params };
    assert_eq!(
        s.create_new_proposal("alice", "p1", rq).unwrap_err(),
        NoteError::InvalidAction
    );

    let mut params2 = ProposalParams::empty();
    params2.receiver_id = Some("bob".to_string());
    params2.amount = Some("340282366920938463463374607431768211455".to_string());
    let rq2 = CreateProposalRequest { action_type: "Transfer".to_string(), params: params2 };
    assert!(s.create_new_proposal("alice", "p2", rq2).is_ok());

    let mut params3 = ProposalParams::empty();
    params3.receiver_id = Some("bob".to_string());
    params3.amount = Some("340282366920938463463374607431768211456".to_string());
    let rq3 = CreateProposalRequest { action_type: "Transfer".to_string(), params: params3 };
    assert_eq!(
        s.create_new_proposal("alice", "p3", rq3).unwrap_err(),
        NoteError::InvalidAction
    );
}

#[test]
fn unknown_action_and_missing_fields_fail_at_creation() {
    let mut s = AppState::init();
    let rq = CreateProposalRequest {
        action_type: "Sabotage".to_string(),
        params: ProposalParams::empty(),
    };
    assert_eq!(
        s.create_new_proposal("alice", "p1", rq).unwrap_err(),
        NoteError::InvalidAction
    );
    let rq2 = CreateProposalRequest {
        action_type: "ExternalFunctionCall".to_string(),
        params: ProposalParams::empty(),
    };
    assert_eq!(
        s.create_new_proposal("alice", "p1", rq2).unwrap_err(),
        NoteError::InvalidAction
    );
}

#[test]
fn duplicate_proposal_id_is_rejected() {
    let mut s = AppState::init();
    s.set_min_approvals(2);
    s.create_new_proposal("alice", "p1", create_note_request("n1", "alice")).unwrap();
    assert_eq!(
        s.create_new_proposal("bob", "p1", create_note_request("n2", "bob")).unwrap_err(),
        NoteError::DuplicateId
    );
}

#[test]
fn delete_proposal_action_removes_its_target() {
    let mut s = AppState::init();
    s.set_min_approvals(9);
    let target_hex: String = "ab".repeat(32);
    s.create_new_proposal("alice", &target_hex, create_note_request("n1", "alice")).unwrap();

    let mut params = ProposalParams::empty();
    params.proposal_id = Some(target_hex.clone());
    let rq = CreateProposalRequest { action_type: "DeleteProposal".to_string(), params };
    s.set_min_approvals(1);
    s.create_new_proposal("alice", "killer", rq).unwrap();
    assert!(matches!(
        s.approve_proposal("alice", "killer").unwrap(),
        ApproveOutcome::Executed { .. }
    ));
    assert_eq!(
        s.approve_proposal("bob", &target_hex).unwrap_err(),
        NoteError::NotFound
    );
}

#[test]
fn proposal_id_must_be_64_hex_chars() {
    let mut s = AppState::init();
    for bad in ["abc", "zz", &"ab".repeat(31) as &str] {
        let mut params = ProposalParams::empty();
        params.proposal_id = Some(bad.to_string());
        let rq = CreateProposalRequest { action_type: "DeleteProposal".to_string(), params };
        assert_eq!(
            s.create_new_proposal("alice", "p1", rq).unwrap_err(),
            NoteError::InvalidAction
        );
    }
}

#[test]
fn config_actions_change_the_config() {
    let mut s = AppState::init();
    let mut params = ProposalParams::empty();
    params.num_approvals = Some(3);
    let rq = CreateProposalRequest { action_type: "SetNumApprovals".to_string(), params };
    s.create_new_proposal("alice", "p1", rq).unwrap();
    assert!(matches!(
        s.approve_proposal("alice", "p1").unwrap(),
        ApproveOutcome::Executed { .. }
    ));
    assert_eq!(s.min_approvals, 3);

    let mut params2 = ProposalParams::empty();
    params2.key = Some("mode".to_string());
    params2.value = Some("live".to_string());
    let rq2 = CreateProposalRequest { action_type: "SetContextValue".to_string(), params: params2 };
    // the threshold is now 3: this proposal needs three approvals
    s.create_new_proposal("alice", "p2", rq2).unwrap();
    assert!(matches!(s.approve_proposal("a", "p2").unwrap(), ApproveOutcome::Pending));
    assert!(matches!(s.approve_proposal("b", "p2").unwrap(), ApproveOutcome::Pending));
    assert!(matches!(
        s.approve_proposal("c", "p2").unwrap(),
        ApproveOutcome::Executed { .. }
    ));
}

#[test]
fn approving_an_unknown_proposal_fails() {
    let mut s = AppState::init();
    assert_eq!(s.approve_proposal("alice", "ghost").unwrap_err(), NoteError::NotFound);
}

#[test]
fn proposal_messages_round_trip() {
    let mut s = AppState::init();
    let msg = notesync::notes::Message {
        id: "m1".to_string(),
        proposal_id: "p1".to_string(),
        author: "alice".to_string(),
        text: "looks good".to_string(),
        created_at: "2024".to_string(),
    };
    assert!(s.get_proposal_messages("p1").unwrap().is_empty());
    s.send_proposal_messages("p1", msg).unwrap();
    let msgs = s.get_proposal_messages("p1").unwrap();
    assert_eq!(msgs.len(), 1);
    assert_eq!(msgs[0].text, "looks good");
    assert!(s.get_proposal_messages("other").unwrap().is_empty());
}
