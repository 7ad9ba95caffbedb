//! Configuration of the two backing-store endpoints and of the key-sharing
//! parameters. Canister identities are plain strings; the empty string
//! stands for the anonymous identity.

use vstd::prelude::*;

verus! {

/// Parameters of the key-splitting scheme.
#[derive(Clone, Copy, PartialEq, Eq, Structural, Debug)]
pub struct EncryptionSettings {
    pub key_size: usize,
    pub min_shares: usize,
    pub total_shares: usize,
}

/// The endpoints and switches one deployment runs with.
pub struct CanisterConfig {
    pub notes_canister: String,
    pub context_canister: String,
    pub sync_enabled: bool,
    pub encryption_settings: EncryptionSettings,
}

impl Default for CanisterConfig {
    /// Anonymous endpoints, synchronization on, a 256-bit key split two of
    /// five ways.
    fn default() -> (r: CanisterConfig)
        ensures
            r.notes_canister@.len() == 0,
            r.context_canister@.len() == 0,
            r.sync_enabled,
            r.encryption_settings == (EncryptionSettings {
                key_size: 256,
                min_shares: 2,
                total_shares: 5,
            }),
    {
        CanisterConfig {
            notes_canister: String::new(),
            context_canister: String::new(),
            sync_enabled: true,
            encryption_settings: EncryptionSettings {
                key_size: 256,
                min_shares: 2,
                total_shares: 5,
            },
        }
    }
}

impl CanisterConfig {
    /// The default configuration pointed at the two given endpoints.
    pub fn new(notes: String, context: String) -> (r: CanisterConfig)
        ensures
            r.notes_canister == notes,
            r.context_canister == context,
            r.sync_enabled,
            r.encryption_settings == (EncryptionSettings {
                key_size: 256,
                min_shares: 2,
                total_shares: 5,
            }),
    {
        CanisterConfig {
            notes_canister: notes,
            context_canister: context,
            sync_enabled: true,
            encryption_settings: EncryptionSettings {
                key_size: 256,
                min_shares: 2,
                total_shares: 5,
            },
        }
    }

    /// The same configuration with other key-sharing parameters.
    pub fn with_encryption_settings(self, settings: EncryptionSettings) -> (r: CanisterConfig)
        ensures
            r.notes_canister == self.notes_canister,
            r.context_canister == self.context_canister,
            r.sync_enabled == self.sync_enabled,
            r.encryption_settings == settings,
    {
        CanisterConfig { encryption_settings: settings, ..self }
    }

    /// The same configuration with synchronization switched off.
    pub fn disable_sync(self) -> (r: CanisterConfig)
        ensures
            r.notes_canister == self.notes_canister,
            r.context_canister == self.context_canister,
            !r.sync_enabled,
            r.encryption_settings == self.encryption_settings,
    {
        CanisterConfig { sync_enabled: false, ..self }
    }
}

} // verus!
