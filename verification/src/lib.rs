//! A verified core for a two-store encrypted note system: a note store with
//! append-only version history and owner/recipient authorization, a
//! threshold-approval proposal workflow, a per-note version tracker that
//! drives synchronization between a ledger-side and a collaboration-side
//! backing store, and the pure decision logic of the sync engine.

pub mod clock;
pub mod codec;
pub mod config;
pub mod encryption;
pub mod errors;
pub mod keyshare;
pub mod laws;
pub mod lists;
pub mod logger;
pub mod maintenance;
pub mod migration;
pub mod notes;
pub mod proposals;
pub mod strmap;
pub mod sync;
pub mod tracker;
