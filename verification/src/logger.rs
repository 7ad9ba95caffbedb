//! An in-memory log of integration events, kept per backing store, and the
//! health summary assembled from probe results.

use vstd::prelude::*;
use crate::clock::now_secs;

verus! {

/// Severity of a log entry.
pub enum LogLevel {
    Info,
    Warning,
    Error,
    Critical,
}

/// Which part of the system an entry concerns.
pub enum SystemComponent {
    ICP,
    Calimero,
    Sync,
    Encryption,
}

/// One log entry.
pub struct LogEntry {
    pub timestamp: u64,
    pub level: LogLevel,
    pub component: SystemComponent,
    pub message: String,
    pub details: Option<String>,
}

/// Collects integration events for each backing store.
pub struct IntegrationLogger {
    pub icp_logs: Vec<LogEntry>,
    pub calimero_logs: Vec<LogEntry>,
}

/// A point-in-time health summary of the two backing stores.
pub struct HealthStatus {
    pub icp_healthy: bool,
    pub calimero_healthy: bool,
    pub last_checked: u64,
}

impl IntegrationLogger {
    /// An empty logger.
    pub fn new() -> (r: IntegrationLogger)
        ensures
            r.icp_logs@.len() == 0,
            r.calimero_logs@.len() == 0,
    {
        IntegrationLogger { icp_logs: Vec::new(), calimero_logs: Vec::new() }
    }

    /// Appends a ledger-side entry, stamped with the current wall clock.
    pub fn log_icp_event(&mut self, level: LogLevel, message: &str, details: Option<String>)
        ensures
            final(self).icp_logs@.len() == old(self).icp_logs@.len() + 1,
            forall|j: int| #![auto] 0 <= j < old(self).icp_logs@.len()
                ==> final(self).icp_logs@[j] == old(self).icp_logs@[j],
            final(self).icp_logs@.last().level == level,
            final(self).icp_logs@.last().component is ICP,
            final(self).icp_logs@.last().message@ == message@,
            final(self).icp_logs@.last().details == details,
            final(self).calimero_logs == old(self).calimero_logs,
    {
        let entry = LogEntry {
            timestamp: now_secs(),
            level,
            component: SystemComponent::ICP,
            message: message.to_owned(),
            details,
        };
        self.icp_logs.push(entry);
    }

    /// Appends a collaboration-side entry, stamped with the current wall
    /// clock.
    pub fn log_calimero_event(&mut self, level: LogLevel, message: &str, details: Option<String>)
        ensures
            final(self).calimero_logs@.len() == old(self).calimero_logs@.len() + 1,
            forall|j: int| #![auto] 0 <= j < old(self).calimero_logs@.len()
                ==> final(self).calimero_logs@[j] == old(self).calimero_logs@[j],
            final(self).calimero_logs@.last().level == level,
            final(self).calimero_logs@.last().component is Calimero,
            final(self).calimero_logs@.last().message@ == message@,
            final(self).calimero_logs@.last().details == details,
            final(self).icp_logs == old(self).icp_logs,
    {
        let entry = LogEntry {
            timestamp: now_secs(),
            level,
            component: SystemComponent::Calimero,
            message: message.to_owned(),
            details,
        };
        self.calimero_logs.push(entry);
    }

    /// Assembles the health summary from the two probe results; the probes
    /// themselves are boundary calls made by the surrounding runtime.
    pub fn health_status(&self, icp_healthy: bool, calimero_healthy: bool, checked_at: u64) -> (r:
        HealthStatus)
        ensures
            r.icp_healthy == icp_healthy,
            r.calimero_healthy == calimero_healthy,
            r.last_checked == checked_at,
    {
        HealthStatus { icp_healthy, calimero_healthy, last_checked: checked_at }
    }
}

} // verus!
