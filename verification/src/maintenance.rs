//! The periodic maintenance service: it owns the logger and the version
//! tracker, and records each sync cycle's outcome. The cycle's waiting and
//! its boundary calls live in the surrounding runtime.

use vstd::prelude::*;
use crate::logger::{IntegrationLogger, LogLevel};
use crate::tracker::NoteState;

verus! {

/// Owns the tracker and the logger between maintenance cycles.
pub struct MaintenanceService {
    pub logger: IntegrationLogger,
    pub note_state: NoteState,
    pub check_interval: u64,
}

impl MaintenanceService {
    /// A fresh service, checking every five minutes.
    pub fn new() -> (r: MaintenanceService)
        ensures
            r.logger.icp_logs@.len() == 0,
            r.logger.calimero_logs@.len() == 0,
            r.note_state.wf(),
            r.note_state.version_map@ == Map::<Seq<char>, crate::tracker::VersionVector>::empty(),
            r.note_state.pending_syncs@
                == Map::<Seq<char>, crate::tracker::SyncOperation>::empty(),
            r.check_interval == 300,
    {
        MaintenanceService {
            logger: IntegrationLogger::new(),
            note_state: NoteState::new(),
            check_interval: 300,
        }
    }

    /// Changes how many seconds pass between maintenance cycles.
    pub fn set_check_interval(&mut self, interval: u64)
        ensures
            final(self).check_interval == interval,
            final(self).logger == old(self).logger,
            final(self).note_state == old(self).note_state,
    {
        self.check_interval = interval;
    }

    /// Records one sync cycle's outcome in the ledger-side log: a success
    /// note, or the failure with its detail, to be retried next cycle.
    pub fn record_sync_result(&mut self, success: bool, detail: Option<String>)
        ensures
            final(self).note_state == old(self).note_state,
            final(self).check_interval == old(self).check_interval,
            final(self).logger.calimero_logs == old(self).logger.calimero_logs,
            final(self).logger.icp_logs@.len() == old(self).logger.icp_logs@.len() + 1,
            success ==> final(self).logger.icp_logs@.last().level is Info
                && final(self).logger.icp_logs@.last().message@
                    == "Sync completed successfully"@,
            !success ==> final(self).logger.icp_logs@.last().level is Error
                && final(self).logger.icp_logs@.last().message@ == "Sync failed"@
                && final(self).logger.icp_logs@.last().details == detail,
    {
        if success {
            self.logger.log_icp_event(LogLevel::Info, "Sync completed successfully", None);
        } else {
            self.logger.log_icp_event(LogLevel::Error, "Sync failed", detail);
        }
    }
}

} // verus!
