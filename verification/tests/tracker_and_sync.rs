use notesync::sync::{plan_event_step, plan_replication, resolve_direction, SyncDirection, SyncEvent, SyncStep};
use notesync::tracker::{NoteState, SyncOperation};

#[test]
fn ledger_ahead_queues_push_to_collab() {
    let mut t = NoteState::new();
    t.register_icp_update("n1", 5).unwrap();
    let pending = t.get_pending_syncs();
    assert_eq!(pending.len(), 1);
    assert!(matches!(
        pending[0],
        SyncOperation::ICPToCalimero { note_id, .. } if note_id == "n1"
    ));
}

#[test]
fn collab_ahead_queues_push_to_ledger() {
    let mut t = NoteState::new();
    t.register_icp_update("n1", 2).unwrap();
    t.register_calimero_update("n1", 7).unwrap();
    let pending = t.get_pending_syncs();
    assert_eq!(pending.len(), 1);
    assert!(matches!(
        pending[0],
        SyncOperation::CalimeroToICP { note_id, .. } if note_id == "n1"
    ));
}

#[test]
fn equal_clocks_clear_the_directive() {
    let mut t = NoteState::new();
    t.register_icp_update("n1", 5).unwrap();
    assert_eq!(t.get_pending_syncs().len(), 1);
    t.register_calimero_update("n1", 5).unwrap();
    assert!(t.get_pending_syncs().is_empty());
}

#[test]
fn a_newer_update_replaces_the_directive() {
    let mut t = NoteState::new();
    t.register_icp_update("n1", 5).unwrap();
    t.register_calimero_update("n1", 9).unwrap();
    // one directive per note: the later call replaced the earlier one
    let pending = t.get_pending_syncs();
    assert_eq!(pending.len(), 1);
    assert!(matches!(pending[0], SyncOperation::CalimeroToICP { .. }));
}

#[test]
fn draining_converges_all_clocks() {
    let mut t = NoteState::new();
    t.register_icp_update("n1", 5).unwrap();
    t.register_calimero_update("n1", 3).unwrap();
    t.register_calimero_update("n2", 8).unwrap();
    t.register_icp_update("n2", 2).unwrap();

    let ids: Vec<String> = t
        .get_pending_syncs()
        .iter()
        .map(|op| op.note_id().clone())
        .collect();
    assert_eq!(ids.len(), 2);
    for id in ids {
        t.mark_sync_complete(&id, 9);
    }

    assert!(t.get_pending_syncs().is_empty());
    for id in ["n1", "n2"] {
        let v = t.get_version(id).unwrap();
        assert_eq!(v.icp_version, 9);
        assert_eq!(v.calimero_version, 9);
        assert_eq!(v.last_sync, 9);
    }
}

#[test]
fn marking_an_unknown_note_is_harmless() {
    let mut t = NoteState::new();
    t.mark_sync_complete("ghost", 4);
    assert!(t.get_version("ghost").is_none());
    assert!(t.get_pending_syncs().is_empty());
}

#[test]
fn direction_follows_the_higher_clock() {
    assert!(matches!(resolve_direction(9, 4), SyncDirection::PushToCollab));
    assert!(matches!(resolve_direction(4, 9), SyncDirection::PushToLedger));
    assert!(matches!(resolve_direction(6, 6), SyncDirection::Conflict));
}

#[test]
fn events_map_to_their_steps() {
    let step = plan_event_step(SyncEvent::NoteUpdated {
        id: "n1".to_string(),
        content: b"x".to_vec(),
    });
    assert!(matches!(step, SyncStep::PushNoteUpdate { id, content } if id == "n1" && content == b"x".to_vec()));

    let step = plan_event_step(SyncEvent::ContextChanged {
        id: "c1".to_string(),
        participants: vec!["a".to_string()],
    });
    assert!(matches!(step, SyncStep::UpdateSharingContext { id, .. } if id == "c1"));

    let step = plan_event_step(SyncEvent::ConflictDetected { note_id: "n1".to_string() });
    assert!(matches!(step, SyncStep::ResolveConflict { note_id } if note_id == "n1"));
}

#[test]
fn replication_plan_lists_exactly_the_missing_proposals() {
    let calimero = vec!["p1".to_string(), "p2".to_string(), "p3".to_string()];
    let icp = vec!["p2".to_string()];
    let plan = plan_replication(&calimero, &icp);
    assert_eq!(plan, vec!["p1".to_string(), "p3".to_string()]);
    assert!(plan_replication(&icp, &icp).is_empty());
    assert!(plan_replication(&Vec::new(), &icp).is_empty());
}
