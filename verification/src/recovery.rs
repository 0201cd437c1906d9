//! Error-recovery bookkeeping for an actor: counts failures and decides
//! what to do about the next one under the configured strategy. The
//! waiting and retrying themselves happen outside, driven by the
//! decision made here.

use vstd::prelude::*;

verus! {

/// How an actor wants its failures handled.
#[derive(Debug, Clone)]
pub enum RecoveryStrategy {
    Retry { max_attempts: u32, backoff_ms: u64 },
    Restart,
    Escalate,
    Ignore,
}

/// What to do about the failure just counted.
#[derive(Debug, PartialEq, Eq, Structural)]
pub enum RecoveryDecision {
    RetryAfter { backoff_ms: u64 },
    GiveUp,
    Restart,
    Escalate,
    Proceed,
}

#[derive(Debug)]
pub struct ErrorRecoveryManager {
    pub error_count: u32,
    pub last_error_time: Option<u64>,
    pub recovery_strategy: RecoveryStrategy,
}

impl ErrorRecoveryManager {
    pub fn new(strategy: RecoveryStrategy) -> (r: ErrorRecoveryManager)
        ensures
            r.error_count == 0,
            r.last_error_time is None,
            r.recovery_strategy == strategy,
    {
        ErrorRecoveryManager { error_count: 0, last_error_time: None, recovery_strategy: strategy }
    }

    /// Counts one failure at the given time and decides: retry with the
    /// configured backoff while attempts remain, then give up; restart
    /// or escalate strategies always do just that; ignoring proceeds.
    pub fn note_error(&mut self, now_ms: u64) -> (r: RecoveryDecision)
        requires
            old(self).error_count < u32::MAX,
        ensures
            final(self).error_count == old(self).error_count + 1,
            final(self).last_error_time == Some(now_ms),
            final(self).recovery_strategy == old(self).recovery_strategy,
            match old(self).recovery_strategy {
                RecoveryStrategy::Retry { max_attempts, backoff_ms } => r == if old(
                    self,
                ).error_count + 1 <= max_attempts {
                    RecoveryDecision::RetryAfter { backoff_ms }
                } else {
                    RecoveryDecision::GiveUp
                },
                RecoveryStrategy::Restart => r == RecoveryDecision::Restart,
                RecoveryStrategy::Escalate => r == RecoveryDecision::Escalate,
                RecoveryStrategy::Ignore => r == RecoveryDecision::Proceed,
            },
    {
        self.error_count = self.error_count + 1;
        self.last_error_time = Some(now_ms);
        match &self.recovery_strategy {
            RecoveryStrategy::Retry { max_attempts, backoff_ms } => {
                if self.error_count <= *max_attempts {
                    RecoveryDecision::RetryAfter { backoff_ms: *backoff_ms }
                } else {
                    RecoveryDecision::GiveUp
                }
            },
            RecoveryStrategy::Restart => RecoveryDecision::Restart,
            RecoveryStrategy::Escalate => RecoveryDecision::Escalate,
            RecoveryStrategy::Ignore => RecoveryDecision::Proceed,
        }
    }

    /// Forgets the failure history.
    pub fn reset(&mut self)
        ensures
            final(self).error_count == 0,
            final(self).last_error_time is None,
            final(self).recovery_strategy == old(self).recovery_strategy,
    {
        self.error_count = 0;
        self.last_error_time = None;
    }
}

} // verus!
