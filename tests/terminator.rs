use gls_strip_packing::terminator::{kill_decision, Terminator};
use std::sync::atomic::{AtomicBool, Ordering};
use std::sync::Arc;
use std::time::Duration;

#[test]
fn fresh_terminator_runs() {
    let t = Terminator::new_without_ctrlc();
    assert!(t.timeout.is_none());
    assert!(!t.is_kill());
}

#[test]
fn interrupt_flag_stops_until_reset() {
    let flag = Arc::new(AtomicBool::new(false));
    let t = Terminator::with_interrupt_flag(flag.clone());
    assert!(!t.is_kill());
    flag.store(true, Ordering::SeqCst);
    assert!(t.is_kill());
    t.reset_ctrlc();
    assert!(!t.is_kill());
}

#[test]
fn deadline_passes() {
    let mut t = Terminator::new_without_ctrlc();
    t.set_timeout_from_now(Duration::from_secs(3600));
    assert!(t.timeout.is_some());
    assert!(!t.is_kill());
    t.set_timeout_from_now(Duration::ZERO);
    let mut seen = false;
    for _ in 0..1_000_000 {
        if t.is_kill() {
            seen = true;
            break;
        }
    }
    assert!(seen);
    t.clear_timeout();
    assert!(!t.is_kill());
}

#[test]
fn kill_decision_needs_passed_deadline_or_interrupt() {
    assert!(!kill_decision(false, false, false));
    assert!(!kill_decision(false, true, false));
    assert!(!kill_decision(true, false, false));
    assert!(kill_decision(true, true, false));
    assert!(kill_decision(false, false, true));
    assert!(kill_decision(true, false, true));
}

#[test]
fn set_deadline_replaces_timeout() {
    let mut t = Terminator::new_without_ctrlc();
    t.set_deadline(Some(std::time::Instant::now()));
    assert!(t.timeout.is_some());
    t.set_deadline(None);
    assert!(t.timeout.is_none());
    assert!(!t.is_kill());
}
