//! Error kinds surfaced by the library's operations.

use vstd::prelude::*;

verus! {

/// Every failure a library operation can report.
///
/// `NotFound` and `Unauthorized` are surfaced immediately to the caller and
/// never retried; `RemoteFailure` marks a boundary call that the next sync
/// cycle retries.
#[derive(Clone, Copy, PartialEq, Eq, Structural, Debug)]
pub enum NoteError {
    /// The note or proposal id is unknown.
    NotFound,
    /// The caller lacks owner or recipient rights for the operation.
    Unauthorized,
    /// A creation collided with an existing id.
    AlreadyExists,
    /// The recipient is already in the note's share list.
    AlreadyShared,
    /// A proposal id collided with an existing proposal.
    DuplicateId,
    /// A proposal action was malformed at construction time.
    InvalidAction,
    /// A persisted-state import carried an unrecognized version.
    UnsupportedVersion,
    /// A boundary call to a backing store failed or timed out.
    RemoteFailure,
}

impl NoteError {
    /// A short human-readable name for the error, for callers that print it.
    pub fn describe(&self) -> (r: &'static str)
        ensures
            r@.len() > 0,
    {
        proof {
            reveal_strlit("not found");
            reveal_strlit("unauthorized");
            reveal_strlit("already exists");
            reveal_strlit("already shared");
            reveal_strlit("duplicate proposal id");
            reveal_strlit("invalid action");
            reveal_strlit("unsupported version");
            reveal_strlit("remote failure");
        }
        match self {
            NoteError::NotFound => "not found",
            NoteError::Unauthorized => "unauthorized",
            NoteError::AlreadyExists => "already exists",
            NoteError::AlreadyShared => "already shared",
            NoteError::DuplicateId => "duplicate proposal id",
            NoteError::InvalidAction => "invalid action",
            NoteError::UnsupportedVersion => "unsupported version",
            NoteError::RemoteFailure => "remote failure",
        }
    }
}

} // verus!
