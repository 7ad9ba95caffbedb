use notesync::errors::NoteError;
use notesync::notes::{AppState, EncryptedNote, NoteMetadata};

fn meta(title: &str) -> NoteMetadata {
    NoteMetadata {
        title: title.to_string(),
        tags: Vec::new(),
        is_pinned: false,
        encryption_version: 1,
    }
}

fn note(id: &str, owner: &str, content: &[u8], title: &str) -> EncryptedNote {
    EncryptedNote {
        id: id.to_string(),
        encrypted_content: content.to_vec(),
        metadata: meta(title),
        owner: owner.to_string(),
        shared_with: Vec::new(),
        created_at: 10,
        updated_at: 10,
    }
}

#[test]
fn create_share_update_and_history() {
    let mut s = AppState::init();
    s.create_note(note("n1", "alice", b"hello", "First")).unwrap();
    s.share_note("alice", "n1", "bob").unwrap();

    let got = s.get_note("bob", "n1").unwrap();
    assert_eq!(got.encrypted_content, b"hello".to_vec());

    s.update_note("alice", "n1", b"hi".to_vec(), None).unwrap();

    let versions = s.get_note_versions("n1").unwrap();
    assert_eq!(versions.len(), 1);
    assert_eq!(versions[0].encrypted_content, b"hello".to_vec());

    let current = s.get_note("alice", "n1").unwrap();
    assert_eq!(current.encrypted_content, b"hi".to_vec());
}

#[test]
fn strangers_are_denied() {
    let mut s = AppState::init();
    s.create_note(note("n1", "alice", b"secret", "Private")).unwrap();
    s.share_note("alice", "n1", "bob").unwrap();
    assert!(s.get_note("alice", "n1").is_ok());
    assert!(s.get_note("bob", "n1").is_ok());
    assert_eq!(s.get_note("carol", "n1").unwrap_err(), NoteError::Unauthorized);
    assert_eq!(s.get_note("alice", "nope").unwrap_err(), NoteError::NotFound);
}

#[test]
fn delete_cascades_to_permissions_and_history() {
    let mut s = AppState::init();
    s.create_note(note("n1", "alice", b"x", "T")).unwrap();
    s.share_note("alice", "n1", "bob").unwrap();
    assert_eq!(s.list_user_notes("bob").unwrap(), vec!["n1".to_string()]);

    s.delete_note("alice", "n1").unwrap();
    assert!(s.list_user_notes("bob").unwrap().is_empty());
    assert_eq!(s.get_note("alice", "n1").unwrap_err(), NoteError::NotFound);
    assert_eq!(s.get_note("bob", "n1").unwrap_err(), NoteError::NotFound);
    assert_eq!(s.get_note_versions("n1").unwrap_err(), NoteError::NotFound);
}

#[test]
fn delete_requires_owner() {
    let mut s = AppState::init();
    s.create_note(note("n1", "alice", b"x", "T")).unwrap();
    s.share_note("alice", "n1", "bob").unwrap();
    assert_eq!(s.delete_note("bob", "n1").unwrap_err(), NoteError::Unauthorized);
    assert_eq!(s.delete_note("alice", "gone").unwrap_err(), NoteError::NotFound);
}

#[test]
fn duplicate_and_invalid_creation() {
    let mut s = AppState::init();
    s.create_note(note("n1", "alice", b"x", "T")).unwrap();
    assert_eq!(
        s.create_note(note("n1", "bob", b"y", "U")).unwrap_err(),
        NoteError::AlreadyExists
    );
    let mut pre_shared = note("n2", "alice", b"x", "T");
    pre_shared.shared_with.push("bob".to_string());
    assert_eq!(s.create_note(pre_shared).unwrap_err(), NoteError::InvalidAction);
}

#[test]
fn share_rules() {
    let mut s = AppState::init();
    s.create_note(note("n1", "alice", b"x", "T")).unwrap();
    assert_eq!(s.share_note("bob", "n1", "carol").unwrap_err(), NoteError::Unauthorized);
    assert_eq!(s.share_note("alice", "nope", "bob").unwrap_err(), NoteError::NotFound);
    s.share_note("alice", "n1", "bob").unwrap();
    assert_eq!(s.share_note("alice", "n1", "bob").unwrap_err(), NoteError::AlreadyShared);
    assert_eq!(s.share_note("alice", "n1", "alice").unwrap_err(), NoteError::AlreadyShared);
}

#[test]
fn update_rules_and_metadata() {
    let mut s = AppState::init();
    s.create_note(note("n1", "alice", b"one", "Old")).unwrap();
    s.share_note("alice", "n1", "bob").unwrap();
    assert_eq!(
        s.update_note("bob", "n1", b"evil".to_vec(), None).unwrap_err(),
        NoteError::Unauthorized
    );
    assert_eq!(
        s.update_note("alice", "gone", b"x".to_vec(), None).unwrap_err(),
        NoteError::NotFound
    );
    s.update_note("alice", "n1", b"two".to_vec(), Some(meta("New"))).unwrap();
    let n = s.get_note("alice", "n1").unwrap();
    assert_eq!(n.metadata.title, "New");
    assert_eq!(n.encrypted_content, b"two".to_vec());
    // two more updates: one history entry per update, oldest first
    s.update_note("alice", "n1", b"three".to_vec(), None).unwrap();
    let versions = s.get_note_versions("n1").unwrap();
    assert_eq!(versions.len(), 2);
    assert_eq!(versions[0].encrypted_content, b"one".to_vec());
    assert_eq!(versions[1].encrypted_content, b"two".to_vec());
    assert!(versions[0].timestamp <= versions[1].timestamp);
}

#[test]
fn key_shares_follow_sharing() {
    let mut s = AppState::init();
    s.create_note(note("n1", "alice", b"x", "T")).unwrap();
    s.share_note("alice", "n1", "bob").unwrap();
    let share = s.get_shared_key("bob", "n1").unwrap();
    assert_eq!(share, b"n1/bob".to_vec());
    assert!(s.get_shared_key("alice", "n1").is_none());
    assert!(s.get_shared_key("carol", "n1").is_none());
    assert!(s.get_shared_key("bob", "nope").is_none());
}

#[test]
fn list_notes_filters_by_access() {
    let mut s = AppState::init();
    s.create_note(note("n1", "alice", b"a", "A")).unwrap();
    s.create_note(note("n2", "bob", b"b", "B")).unwrap();
    s.share_note("bob", "n2", "alice").unwrap();
    let mine = s.list_notes("alice");
    assert_eq!(mine.len(), 2);
    assert!(s.list_notes("carol").is_empty());
    let bobs = s.list_notes("bob");
    assert_eq!(bobs.len(), 1);
    assert_eq!(bobs[0].id, "n2");
}

#[test]
fn events_record_the_lifecycle() {
    let mut s = AppState::init();
    s.create_note(note("n1", "alice", b"x", "T")).unwrap();
    s.share_note("alice", "n1", "bob").unwrap();
    s.update_note("alice", "n1", b"y".to_vec(), None).unwrap();
    s.delete_note("alice", "n1").unwrap();
    assert_eq!(s.events.len(), 4);
    assert!(matches!(&s.events[0], notesync::notes::Event::NoteCreated { id } if id == "n1"));
    assert!(matches!(&s.events[1], notesync::notes::Event::NoteShared { id, with } if id == "n1" && with == "bob"));
    assert!(matches!(&s.events[2], notesync::notes::Event::NoteUpdated { id } if id == "n1"));
    assert!(matches!(&s.events[3], notesync::notes::Event::NoteDeleted { id } if id == "n1"));
}
