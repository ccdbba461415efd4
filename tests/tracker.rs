use gls_strip_packing::pair_matrix::{tri_exec, PairMatrix};
use gls_strip_packing::tracker::{OverlapTracker, WEIGHT_CAP, WEIGHT_UNIT};

#[test]
fn triangular_sizes() {
    assert_eq!(tri_exec(0), 0);
    assert_eq!(tri_exec(1), 1);
    assert_eq!(tri_exec(4), 10);
    let m = PairMatrix::new(4, 7);
    assert_eq!(m.data.len(), 10);
    assert_eq!(m.index_of(1, 3), m.index_of(3, 1));
    assert_eq!(m.index_of(3, 1), 7);
}

#[test]
fn pair_overlap_is_symmetric() {
    let mut t = OverlapTracker::new(3);
    t.set_pair_overlap(2, 0, 42);
    assert_eq!(t.get_pair_overlap(0, 2), 42);
    assert_eq!(t.get_pair_overlap(2, 0), 42);
    for a in 0..3 {
        assert_eq!(t.get_pair_overlap(a, a), 0);
    }
}

#[test]
fn move_item_replaces_its_row() {
    let mut t = OverlapTracker::new(3);
    t.set_pair_overlap(1, 2, 9);
    t.move_item(0, &vec![555, 4, 6], 8);
    assert_eq!(t.get_pair_overlap(0, 0), 0);
    assert_eq!(t.get_pair_overlap(0, 1), 4);
    assert_eq!(t.get_pair_overlap(2, 0), 6);
    assert_eq!(t.get_pair_overlap(1, 2), 9);
    assert_eq!(t.get_bin_overlap(0), 8);
    t.move_item(0, &vec![0, 0, 0], 0);
    assert_eq!(t.get_pair_overlap(0, 1), 0);
    assert_eq!(t.get_bin_overlap(0), 0);
    assert_eq!(t.get_pair_overlap(1, 2), 9);
}

#[test]
fn weighted_overlap_sums_pairs_and_bin() {
    let mut t = OverlapTracker::new(3);
    t.move_item(0, &vec![0, 100, 50], 3);
    assert_eq!(t.get_weighted_overlap(0), 100 * 1000 + 50 * 1000 + 3 * 1000);
    assert_eq!(t.get_weighted_overlap(1), 100 * 1000);
    assert_eq!(t.get_overall_weighted_overlap(), 153_000);
    assert!(!t.is_feasible());
    t.move_item(0, &vec![0, 0, 0], 0);
    assert!(t.is_feasible());
}

#[test]
fn increment_scales_with_relative_overlap() {
    let mut t = OverlapTracker::new(4);
    t.move_item(0, &vec![0, 100, 0, 0], 0);
    t.set_pair_overlap(2, 3, 10);
    t.set_bin_overlap(3, 5);
    // weighted overlaps: 100_000, 100_000, 10_000, 15_000
    t.increment_weights();
    assert_eq!(t.get_pair_weight(0, 1), 2000);
    assert_eq!(t.get_pair_weight(2, 3), 1320);
    assert_eq!(t.get_bin_weight(3), 1320);
    assert_eq!(t.get_pair_weight(1, 2), WEIGHT_UNIT);
    assert_eq!(t.get_bin_weight(0), WEIGHT_UNIT);
}

#[test]
fn pair_takes_larger_ratio_of_its_items() {
    let mut t = OverlapTracker::new(3);
    t.move_item(0, &vec![0, 10, 40], 0);
    t.set_pair_overlap(1, 2, 5);
    // weighted overlaps: 50_000, 15_000, 45_000
    t.increment_weights();
    assert_eq!(t.get_pair_weight(0, 1), 2000);
    assert_eq!(t.get_pair_weight(0, 2), 2000);
    assert_eq!(t.get_pair_weight(1, 2), 1920);
}

#[test]
fn weights_never_fall_below_one_nor_rise_above_cap() {
    let mut t = OverlapTracker::new(2);
    t.set_pair_overlap(0, 1, 10);
    t.set_bin_overlap(1, 10);
    for _ in 0..40 {
        let before = t.get_pair_weight(0, 1);
        t.increment_weights();
        assert!(t.get_pair_weight(0, 1) >= before);
    }
    assert_eq!(t.get_pair_weight(0, 1), WEIGHT_CAP);
    assert_eq!(t.get_bin_weight(1), WEIGHT_CAP);
    t.decay_weights();
    assert_eq!(t.get_pair_weight(0, 1), 1_900_000_000);
    for _ in 0..500 {
        let before = t.get_pair_weight(0, 1);
        t.decay_weights();
        assert!(t.get_pair_weight(0, 1) <= before);
    }
    assert_eq!(t.get_pair_weight(0, 1), WEIGHT_UNIT);
    assert_eq!(t.get_bin_weight(0), WEIGHT_UNIT);
}

#[test]
fn decay_rounds_down_then_floors() {
    let mut t = OverlapTracker::new(2);
    t.set_pair_overlap(0, 1, 1);
    t.increment_weights();
    assert_eq!(t.get_pair_weight(0, 1), 2000);
    t.decay_weights();
    assert_eq!(t.get_pair_weight(0, 1), 1900);
    t.decay_weights();
    assert_eq!(t.get_pair_weight(0, 1), 1805);
}

#[test]
fn empty_tracker_is_feasible() {
    let t = OverlapTracker::new(0);
    assert!(t.is_feasible());
    assert_eq!(t.get_overall_weighted_overlap(), 0);
}

#[test]
fn stored_overlaps_match_fresh_within_a_thousandth() {
    let mut t = OverlapTracker::new(3);
    t.move_item(1, &vec![1000, 0, 0], 2000);
    let mut fresh = PairMatrix::new(3, 0);
    fresh.set(0, 1, 1001);
    fresh.set(2, 2, 77);
    let mut seen = vec![vec![false; 3]; 3];
    seen[0][1] = true;
    seen[1][0] = true;
    let bin_seen = vec![false, true, false];
    let bins = vec![0, 2000, 0];
    assert!(t.matches_fresh(&seen, &fresh, &bin_seen, &bins));
    fresh.set(1, 0, 1002);
    assert!(!t.matches_fresh(&seen, &fresh, &bin_seen, &bins));
    fresh.set(1, 0, 1000);
    assert!(!t.matches_fresh(&seen, &fresh, &bin_seen, &vec![0, 2001, 0]));
    assert!(!t.matches_fresh(&seen, &fresh, &vec![false; 3], &bins));
}

#[test]
fn one_sided_detection_is_tolerated() {
    let mut t = OverlapTracker::new(2);
    t.set_pair_overlap(0, 1, 500);
    let fresh = PairMatrix::new(2, 0);
    let none = vec![false; 2];
    let mut seen = vec![vec![false; 2]; 2];
    assert!(!t.matches_fresh(&seen, &fresh, &none, &vec![0, 0]));
    seen[1][0] = true;
    assert!(t.matches_fresh(&seen, &fresh, &none, &vec![0, 0]));
    seen[0][1] = true;
    assert!(!t.matches_fresh(&seen, &fresh, &none, &vec![0, 0]));
}

#[test]
fn tracker_size_must_be_addressable() {
    assert!(OverlapTracker::try_new(5).is_some());
    assert!(OverlapTracker::try_new(usize::MAX).is_none());
    assert!(gls_strip_packing::pair_matrix::tri_fits(1000));
    assert!(!gls_strip_packing::pair_matrix::tri_fits(usize::MAX));
}

#[test]
fn registered_layout_tracks_fresh_overlaps_through_moves() {
    let mut fresh = PairMatrix::new(3, 0);
    fresh.set(0, 1, 40);
    fresh.set(1, 2, 15);
    fresh.set(2, 2, 99);
    let mut bins = vec![0, 6, 0];
    let mut seen = vec![vec![false; 3]; 3];
    seen[0][1] = true;
    seen[1][0] = true;
    seen[1][2] = true;
    seen[2][1] = true;
    let mut bin_seen = vec![false, true, false];
    let mut t = OverlapTracker::register_layout(&fresh, &bins);
    assert_eq!(t.get_pair_overlap(1, 0), 40);
    assert_eq!(t.get_pair_overlap(2, 1), 15);
    assert_eq!(t.get_pair_overlap(2, 2), 0);
    assert_eq!(t.get_bin_overlap(1), 6);
    assert_eq!(t.get_pair_weight(0, 1), WEIGHT_UNIT);
    assert!(t.matches_fresh(&seen, &fresh, &bin_seen, &bins));
    // item 1 moves: its overlaps are recomputed
    fresh.set(1, 0, 0);
    fresh.set(1, 2, 25);
    seen[0][1] = false;
    seen[1][0] = false;
    bins[1] = 0;
    bin_seen[1] = false;
    assert!(!t.matches_fresh(&seen, &fresh, &bin_seen, &bins));
    t.move_item(1, &vec![0, 0, 25], 0);
    assert!(t.matches_fresh(&seen, &fresh, &bin_seen, &bins));
}
