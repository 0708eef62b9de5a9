//! Decisions of the digital immune system. Its periodic checks run outside
//! the library; each outcome is judged here.
use vstd::prelude::*;
use crate::error::Error;
use crate::ports::{ImmunePort, ThreatLevel};

verus! {

/// What an integrity check calls for.
#[derive(Debug, Clone, Copy, PartialEq, Eq, Structural)]
pub enum IntegrityAlert {
    /// The program is intact.
    Healthy,
    /// The program was tampered with: self-healing is due.
    Breach,
    /// The check itself failed: warn and retry later.
    CheckFailed,
}

/// The alert an integrity check's outcome calls for.
pub fn integrity_alert(outcome: &Result<bool, Error>) -> (r: IntegrityAlert)
    ensures
        r == (match outcome {
            Ok(true) => IntegrityAlert::Healthy,
            Ok(false) => IntegrityAlert::Breach,
            Err(_) => IntegrityAlert::CheckFailed,
        }),
{
    match outcome {
        Ok(true) => IntegrityAlert::Healthy,
        Ok(false) => IntegrityAlert::Breach,
        Err(_) => IntegrityAlert::CheckFailed,
    }
}

/// Whether a scan result of the active window's process is worth a warning:
/// any level but `Safe`; a failed scan is not.
pub fn is_threat(outcome: &Result<ThreatLevel, Error>) -> (r: bool)
    ensures
        r == (outcome matches Ok(level) && level != ThreatLevel::Safe),
{
    match outcome {
        Ok(level) => *level != ThreatLevel::Safe,
        Err(_) => false,
    }
}

/// The immune system: a scanner and whether its checks were started.
pub struct ImmuneSystem<I: ImmunePort> {
    immune_infra: I,
    is_running: bool,
}

impl<I: ImmunePort> ImmuneSystem<I> {
    pub closed spec fn spec_running(&self) -> bool {
        self.is_running
    }

    /// A stopped immune system around `immune_infra`.
    pub fn new(immune_infra: I) -> (r: Self)
        ensures
            !r.spec_running(),
    {
        ImmuneSystem { immune_infra, is_running: false }
    }

    /// Marks the system as running; true when it was stopped, that is when
    /// the caller is to start the periodic checks.
    pub fn start(&mut self) -> (r: bool)
        ensures
            r == !old(self).spec_running(),
            final(self).spec_running(),
    {
        if self.is_running {
            return false;
        }
        self.is_running = true;
        true
    }

    /// Whether the periodic checks were started.
    pub fn is_running(&self) -> (r: bool)
        ensures
            r == self.spec_running(),
    {
        self.is_running
    }

    /// One integrity check through the scanner, judged.
    pub fn check_integrity(&self) -> (r: IntegrityAlert) {
        let outcome = self.immune_infra.check_integrity();
        integrity_alert(&outcome)
    }

    /// One scan of a process through the scanner, judged.
    pub fn check_process(&self, process_name: &str) -> (r: bool) {
        let outcome = self.immune_infra.scan_process(process_name);
        is_threat(&outcome)
    }
}

} // verus!
