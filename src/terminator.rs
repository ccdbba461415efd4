use vstd::prelude::*;
use std::sync::Arc;
use std::sync::atomic::{AtomicBool, Ordering};
use std::time::{Duration, Instant};

verus! {

#[verifier::external_type_specification]
#[verifier::external_body]
pub struct ExInstant(std::time::Instant);

/// Relies on `Instant::now`: a reading of the monotonic clock.
pub assume_specification[ std::time::Instant::now ]() -> std::time::Instant;

/// Relies on `Instant::checked_add`: the instant `d` later, `None` when the clock
/// cannot represent it.
pub assume_specification[ std::time::Instant::checked_add ](
    i: &std::time::Instant,
    d: core::time::Duration,
) -> Option<std::time::Instant>;

/// Relies on `Instant::saturating_duration_since`: time from `earlier` to `i`, zero when
/// `earlier` is not before `i`; it never panics.
pub assume_specification[ std::time::Instant::saturating_duration_since ](
    i: &std::time::Instant,
    earlier: std::time::Instant,
) -> core::time::Duration;

/// Relies on `Duration::is_zero`: whether the duration is zero.
pub assume_specification[ core::time::Duration::is_zero ](d: &core::time::Duration) -> bool;

/// Cooperative cancellation: an optional deadline and an interrupt flag that a signal
/// handler may raise.
#[derive(Clone, Debug)]
pub struct Terminator {
    pub timeout: Option<Instant>,
    pub ctrlc: Arc<AtomicBool>,
}

/// Termination is due when a deadline exists and has passed, or when interrupted.
pub fn kill_decision(has_deadline: bool, deadline_passed: bool, interrupted: bool) -> (r: bool)
    ensures
        r == ((has_deadline && deadline_passed) || interrupted),
{
    (has_deadline && deadline_passed) || interrupted
}

impl Terminator {
    /// A terminator with no deadline whose flag nothing raises.
    pub fn new_without_ctrlc() -> (r: Terminator)
        ensures
            r.timeout.is_none(),
    {
        Terminator { timeout: None, ctrlc: Arc::new(AtomicBool::new(false)) }
    }

    /// A terminator with no deadline that watches `ctrlc`.
    pub fn with_interrupt_flag(ctrlc: Arc<AtomicBool>) -> (r: Terminator)
        ensures
            r.timeout.is_none(),
            r.ctrlc == ctrlc,
    {
        Terminator { timeout: None, ctrlc }
    }

    /// Reads the clock (when there is a deadline) and the interrupt flag once each, and
    /// returns `kill_decision` of those readings.
    pub fn is_kill(&self) -> bool {
        let deadline_passed = match &self.timeout {
            Some(t) => !Instant::now().saturating_duration_since(*t).is_zero(),
            None => false,
        };
        let interrupted = self.ctrlc.load(Ordering::SeqCst);
        kill_decision(self.timeout.is_some(), deadline_passed, interrupted)
    }

    /// Lowers the interrupt flag.
    pub fn reset_ctrlc(&self) -> (r: &Terminator)
        ensures
            r == self,
    {
        self.ctrlc.store(false, Ordering::SeqCst);
        self
    }

    /// Sets the deadline `timeout` from now; a deadline beyond the clock's range is
    /// never reached and leaves no deadline.
    pub fn set_timeout_from_now(&mut self, timeout: Duration) -> (r: &mut Terminator)
        ensures
            r.ctrlc == old(self).ctrlc,
            *final(self) == *final(r),
    {
        let deadline = Instant::now().checked_add(timeout);
        self.set_deadline(deadline);
        self
    }

    /// Sets the deadline to `deadline`, `None` for none.
    pub fn set_deadline(&mut self, deadline: Option<Instant>)
        ensures
            final(self).timeout == deadline,
            final(self).ctrlc == old(self).ctrlc,
    {
        self.timeout = deadline;
    }

    /// Removes the deadline.
    pub fn clear_timeout(&mut self) -> (r: &mut Terminator)
        ensures
            r.timeout.is_none(),
            r.ctrlc == old(self).ctrlc,
            *final(self) == *final(r),
    {
        self.timeout = None;
        self
    }
}

} // verus!
