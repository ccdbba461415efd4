use gls_strip_packing::driver::{
    compress_step_ppm, explore_budget, is_large_item, shrink_width, StripProgress, EXPLORE_SHRINK_STEP_PPM,
};

#[test]
fn explore_step_is_a_thousandth() {
    assert_eq!(shrink_width(1_000_000, EXPLORE_SHRINK_STEP_PPM), 999_000);
    assert_eq!(shrink_width(999, EXPLORE_SHRINK_STEP_PPM), 999);
    assert_eq!(shrink_width(u64::MAX, 1_000_000), 0);
    assert_eq!(shrink_width(12345, 0), 12345);
}

#[test]
fn compress_steps_stay_in_range() {
    assert_eq!(compress_step_ppm(0), 10);
    assert_eq!(compress_step_ppm(490), 500);
    assert_eq!(compress_step_ppm(491), 10);
    assert_eq!(compress_step_ppm(u64::MAX), 10 + u64::MAX % 491);
}

#[test]
fn explore_gets_most_of_the_time() {
    assert_eq!(explore_budget(1000), 800);
    assert_eq!(explore_budget(u64::MAX), ((u64::MAX as u128) * 80 / 100) as u64);
}

#[test]
fn large_items_cover_over_half() {
    assert!(is_large_item(51, 100));
    assert!(!is_large_item(50, 100));
    assert!(!is_large_item(0, 0) && is_large_item(1, 0));
}

#[test]
fn infeasible_attempts_keep_initial_width() {
    let mut p = StripProgress::new(10_000);
    for _ in 0..5 {
        let next = p.after_attempt(false, EXPLORE_SHRINK_STEP_PPM);
        assert_eq!(next, 9_990);
    }
    assert_eq!(p.best_feasible_width, 10_000);
}

#[test]
fn feasible_attempts_shrink_best() {
    let mut p = StripProgress::new(10_000);
    assert_eq!(p.after_attempt(true, EXPLORE_SHRINK_STEP_PPM), 9_990);
    assert_eq!(p.after_attempt(true, EXPLORE_SHRINK_STEP_PPM), 9_981);
    assert_eq!(p.best_feasible_width, 9_990);
    assert_eq!(p.after_attempt(false, EXPLORE_SHRINK_STEP_PPM), 9_981);
    assert_eq!(p.best_feasible_width, 9_990);
}
