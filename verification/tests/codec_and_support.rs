use notesync::codec::{decode_proposal_id, parse_u128, u64_to_dec_string};
use notesync::config::{CanisterConfig, EncryptionSettings};
use notesync::encryption::{create_encrypted_note, encrypt_content, generate_key_shares};
use notesync::errors::NoteError;
use notesync::keyshare::{derive_key_share, generate_key_share_for_user};
use notesync::logger::{IntegrationLogger, LogLevel};
use notesync::maintenance::MaintenanceService;
use notesync::migration::{ContextState, NotesState, StateMigration};

#[test]
fn decimal_parsing_is_exact() {
    assert_eq!(parse_u128("0"), Some(0));
    assert_eq!(parse_u128("250"), Some(250));
    assert_eq!(
        parse_u128("340282366920938463463374607431768211455"),
        Some(u128::MAX)
    );
    assert_eq!(parse_u128("340282366920938463463374607431768211456"), None);
    assert_eq!(parse_u128(""), None);
    assert_eq!(parse_u128("+5"), None);
    assert_eq!(parse_u128("12 "), None);
}

#[test]
fn decimal_rendering_is_exact() {
    assert_eq!(u64_to_dec_string(0), "0");
    assert_eq!(u64_to_dec_string(7), "7");
    assert_eq!(u64_to_dec_string(10), "10");
    assert_eq!(u64_to_dec_string(90210), "90210");
    assert_eq!(u64_to_dec_string(u64::MAX), "18446744073709551615");
}

#[test]
fn proposal_id_decoding() {
    let hex: String = "0f".repeat(32);
    let raw = decode_proposal_id(&hex).unwrap();
    assert_eq!(raw, vec![0x0fu8; 32]);
    let upper: String = "AB".repeat(32);
    assert_eq!(decode_proposal_id(&upper).unwrap(), vec![0xabu8; 32]);
    assert_eq!(decode_proposal_id("abc").unwrap_err(), NoteError::InvalidAction);
    assert_eq!(
        decode_proposal_id(&"zz".repeat(32)).unwrap_err(),
        NoteError::InvalidAction
    );
    assert_eq!(
        decode_proposal_id(&"ab".repeat(31)).unwrap_err(),
        NoteError::InvalidAction
    );
}

#[test]
fn content_encryption_is_the_documented_cipher() {
    // 'h' = 104, 'i' = 105; key byte 1 flips the lowest bit
    assert_eq!(encrypt_content("hi", &[1]).unwrap(), vec![105, 104]);
    // the key repeats beyond its length
    assert_eq!(encrypt_content("aaaa", &[0, 0xff]).unwrap(), vec![97, 158, 97, 158]);
    assert_eq!(encrypt_content("hi", &[]).unwrap_err(), NoteError::InvalidAction);
    assert_eq!(encrypt_content("", &[1]).unwrap(), Vec::<u8>::new());
}

#[test]
fn key_shares_are_indexed_copies() {
    let shares = generate_key_shares(&[9, 8], 3).unwrap();
    assert_eq!(shares, vec![vec![0, 9, 8], vec![1, 9, 8], vec![2, 9, 8]]);
    assert!(generate_key_shares(&[9], 257).is_err());
    assert!(generate_key_shares(&[9], 0).unwrap().is_empty());
}

#[test]
fn encrypted_note_assembly() {
    let recipients = vec!["bob".to_string(), "carol".to_string()];
    let note = create_encrypted_note("hi", "Greeting", &recipients, &[1], "alice", None).unwrap();
    assert_eq!(note.content, vec![105, 104]);
    assert_eq!(note.key_shares.len(), 2);
    assert_eq!(note.metadata.title, "Greeting");
    assert_eq!(note.metadata.owner, "alice");
    assert_eq!(note.metadata.shared_with, recipients);
    assert!(note.metadata.context_id.is_none());
    assert!(create_encrypted_note("hi", "T", &recipients, &[], "alice", None).is_err());
}

#[test]
fn key_share_material_binds_note_and_recipient() {
    assert_eq!(derive_key_share("n1", "bob"), b"n1/bob".to_vec());
    assert_eq!(generate_key_share_for_user("bob").unwrap(), "share:bob");
}

#[test]
fn logger_keeps_both_logs_apart() {
    let mut l = IntegrationLogger::new();
    l.log_icp_event(LogLevel::Info, "stored", None);
    l.log_calimero_event(LogLevel::Warning, "slow", Some("750ms".to_string()));
    assert_eq!(l.icp_logs.len(), 1);
    assert_eq!(l.calimero_logs.len(), 1);
    assert_eq!(l.icp_logs[0].message, "stored");
    assert_eq!(l.calimero_logs[0].message, "slow");
    assert_eq!(l.calimero_logs[0].details.as_deref(), Some("750ms"));
    let h = l.health_status(true, false, 42);
    assert!(h.icp_healthy);
    assert!(!h.calimero_healthy);
    assert_eq!(h.last_checked, 42);
}

#[test]
fn maintenance_records_cycle_outcomes() {
    let mut m = MaintenanceService::new();
    assert_eq!(m.check_interval, 300);
    m.set_check_interval(5);
    assert_eq!(m.check_interval, 5);
    m.record_sync_result(true, None);
    m.record_sync_result(false, Some("timeout".to_string()));
    assert_eq!(m.logger.icp_logs.len(), 2);
    assert_eq!(m.logger.icp_logs[0].message, "Sync completed successfully");
    assert_eq!(m.logger.icp_logs[1].message, "Sync failed");
    assert_eq!(m.logger.icp_logs[1].details.as_deref(), Some("timeout"));
}

#[test]
fn config_builders() {
    let c = CanisterConfig::default();
    assert!(c.sync_enabled);
    assert_eq!(c.encryption_settings.key_size, 256);
    assert_eq!(c.encryption_settings.min_shares, 2);
    assert_eq!(c.encryption_settings.total_shares, 5);

    let c2 = CanisterConfig::new("notes".to_string(), "ctx".to_string())
        .with_encryption_settings(EncryptionSettings { key_size: 128, min_shares: 1, total_shares: 3 })
        .disable_sync();
    assert_eq!(c2.notes_canister, "notes");
    assert_eq!(c2.context_canister, "ctx");
    assert!(!c2.sync_enabled);
    assert_eq!(c2.encryption_settings.key_size, 128);
}

#[test]
fn migration_rejects_unknown_versions() {
    let empty = || StateMigration::assemble(
        NotesState { notes: Vec::new(), metadata: Vec::new() },
        ContextState { contexts: Vec::new(), access_maps: Vec::new() },
    );
    assert!(empty().validate().is_ok());
    let mut stale = empty();
    stale.version = 2;
    assert_eq!(stale.validate().unwrap_err(), NoteError::UnsupportedVersion);
    let mut zero = empty();
    zero.version = 0;
    assert_eq!(zero.validate().unwrap_err(), NoteError::UnsupportedVersion);
}

#[test]
fn errors_describe_themselves() {
    assert_eq!(NoteError::NotFound.describe(), "not found");
    assert_eq!(NoteError::Unauthorized.describe(), "unauthorized");
    assert_eq!(NoteError::AlreadyExists.describe(), "already exists");
    assert_eq!(NoteError::AlreadyShared.describe(), "already shared");
    assert_eq!(NoteError::DuplicateId.describe(), "duplicate proposal id");
    assert_eq!(NoteError::InvalidAction.describe(), "invalid action");
    assert_eq!(NoteError::UnsupportedVersion.describe(), "unsupported version");
    assert_eq!(NoteError::RemoteFailure.describe(), "remote failure");
}
