//! The persisted-state shape that crosses a version boundary, and the
//! version check an importer runs before touching any of it: a version it
//! does not recognize is rejected, never guessed at.

use vstd::prelude::*;
use crate::errors::NoteError;

verus! {

/// The one persisted-state version this library reads and writes.
pub const SUPPORTED_STATE_VERSION: u32 = 1;

/// A note as persisted on the ledger side.
pub struct SerializedNote {
    pub id: String,
    pub encrypted_content: Vec<u8>,
    pub version: u64,
}

/// Ownership and sharing of one persisted note.
pub struct SerializedMetadata {
    pub note_id: String,
    pub owner: String,
    pub shared_with: Vec<String>,
}

/// A persisted shared context and the notes it covers.
pub struct SerializedContext {
    pub id: String,
    pub note_refs: Vec<String>,
}

/// The per-user key material of one persisted context.
pub struct SerializedAccessMap {
    pub context_id: String,
    pub user_keys: Vec<(String, Vec<u8>)>,
}

/// The ledger side of a persisted state.
pub struct NotesState {
    pub notes: Vec<SerializedNote>,
    pub metadata: Vec<SerializedMetadata>,
}

/// The collaboration side of a persisted state.
pub struct ContextState {
    pub contexts: Vec<SerializedContext>,
    pub access_maps: Vec<SerializedAccessMap>,
}

/// A whole persisted state, tagged with its layout version.
pub struct StateMigration {
    pub version: u32,
    pub notes_data: NotesState,
    pub context_data: ContextState,
}

impl StateMigration {
    /// Wraps the two sides' exported data under the current version tag.
    pub fn assemble(notes_data: NotesState, context_data: ContextState) -> (r: StateMigration)
        ensures
            r.version == SUPPORTED_STATE_VERSION,
            r.notes_data == notes_data,
            r.context_data == context_data,
    {
        StateMigration { version: SUPPORTED_STATE_VERSION, notes_data, context_data }
    }

    /// Accepts exactly the supported layout version; anything else is
    /// `UnsupportedVersion` and must not be imported.
    pub fn validate(&self) -> (r: Result<(), NoteError>)
        ensures
            r is Ok <==> self.version == SUPPORTED_STATE_VERSION,
            r is Err ==> r->Err_0 == NoteError::UnsupportedVersion,
    {
        if self.version == SUPPORTED_STATE_VERSION {
            Ok(())
        } else {
            Err(NoteError::UnsupportedVersion)
        }
    }
}

} // verus!
