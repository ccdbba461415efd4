use gls_strip_packing::separator::{order_by_key_desc, relocation_order};
use gls_strip_packing::tracker::OverlapTracker;
use gls_strip_packing::separator::{PassOutcome, SeparatorConfig, SeparatorProgress, SampleConfig};

fn cfg(limit: usize, strikes: usize) -> SeparatorConfig {
    SeparatorConfig { iter_no_imprv_limit: limit, strike_limit: strikes, n_workers: 1, sample_config: SampleConfig::separation() }
}

#[test]
fn presets() {
    let e = SeparatorConfig::explore();
    assert_eq!((e.iter_no_imprv_limit, e.strike_limit, e.n_workers), (200, 3, 3));
    let c = SeparatorConfig::compress();
    assert_eq!((c.iter_no_imprv_limit, c.strike_limit), (100, 5));
    assert_eq!(SampleConfig::lbf().n_bin_samples, 1000);
    assert_eq!(e.sample_config.n_focussed_samples, 25);
}

#[test]
fn improvement_to_zero_is_feasible() {
    let c = cfg(2, 2);
    let mut p = SeparatorProgress::new(1000);
    assert_eq!(p.record_pass(&c, 500, false), PassOutcome::Continue);
    assert_eq!(p.record_pass(&c, 0, true), PassOutcome::Feasible);
}

#[test]
fn stagnation_strikes_then_exhausts() {
    let c = cfg(2, 2);
    let mut p = SeparatorProgress::new(1000);
    assert_eq!(p.record_pass(&c, 1000, false), PassOutcome::Continue);
    assert_eq!(p.record_pass(&c, 999, false), PassOutcome::Strike);
    assert_eq!(p.strikes, 1);
    assert_eq!(p.iters_no_improvement, 0);
    assert!(p.is_running(&c));
    assert_eq!(p.record_pass(&c, 999, false), PassOutcome::Continue);
    assert_eq!(p.record_pass(&c, 1200, false), PassOutcome::Exhausted);
    assert!(!p.is_running(&c));
}

#[test]
fn small_decrease_is_no_improvement() {
    let c = cfg(10, 1);
    let mut p = SeparatorProgress::new(10_000);
    assert_eq!(p.record_pass(&c, 9_990, false), PassOutcome::Continue);
    assert_eq!(p.iters_no_improvement, 1);
    assert_eq!(p.record_pass(&c, 9_900, false), PassOutcome::Continue);
    assert_eq!(p.iters_no_improvement, 0);
}

#[test]
fn ordering_is_by_decreasing_key_then_index() {
    let r = order_by_key_desc(&vec![(5, 0), (9, 3), (5, 1), (0, 2), (9, 1)]);
    assert_eq!(r, vec![(9, 1), (9, 3), (5, 0), (5, 1), (0, 2)]);
    assert_eq!(order_by_key_desc(&vec![]), vec![]);
}

#[test]
fn relocation_visits_most_overlapping_first() {
    let mut t = OverlapTracker::new(4);
    t.move_item(2, &vec![1, 0, 0, 0], 7);
    t.set_pair_overlap(1, 3, 2);
    let r = relocation_order(&t);
    assert_eq!(r, vec![(8000, 2), (2000, 1), (2000, 3), (1000, 0)]);
}

#[test]
fn single_fitting_item_finishes_in_one_pass() {
    let mut t = OverlapTracker::new(1);
    t.move_item(0, &vec![0], 0);
    assert!(t.is_feasible());
    let c = SeparatorConfig::explore();
    let mut p = SeparatorProgress::new(t.get_overall_weighted_overlap());
    assert_eq!(p.record_pass(&c, t.get_overall_weighted_overlap(), t.is_feasible()), PassOutcome::Feasible);
}

#[test]
fn overlap_that_never_clears_exhausts_strikes() {
    let c = cfg(3, 2);
    let mut p = SeparatorProgress::new(500);
    let mut outcomes = Vec::new();
    while p.is_running(&c) {
        outcomes.push(p.record_pass(&c, 500, false));
    }
    assert_eq!(outcomes.len(), 6);
    assert_eq!(outcomes[2], PassOutcome::Strike);
    assert_eq!(outcomes[5], PassOutcome::Exhausted);
    assert!(!outcomes.contains(&PassOutcome::Feasible));
}
