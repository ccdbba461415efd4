use gls_strip_packing::best_samples::{transforms_are_duplicates, BestSamples, DTransf, UniqueThreshold};
use gls_strip_packing::sample_eval::SampleEval;

fn thr(rotation: u64, translation: u64) -> UniqueThreshold {
    UniqueThreshold { rotation, translation }
}

fn dt(rotation: i64, tx: i64, ty: i64) -> DTransf {
    DTransf { rotation, tx, ty }
}

#[test]
fn keeps_samples_sorted() {
    let mut b = BestSamples::new(3, thr(1, 1));
    assert!(b.report(dt(0, 0, 0), SampleEval::Colliding(30)));
    assert!(b.report(dt(0, 10, 0), SampleEval::Colliding(10)));
    assert!(b.report(dt(0, 20, 0), SampleEval::Valid(0)));
    let evals: Vec<SampleEval> = b.samples.iter().map(|s| s.1).collect();
    assert_eq!(evals, vec![SampleEval::Valid(0), SampleEval::Colliding(10), SampleEval::Colliding(30)]);
    assert_eq!(b.best().unwrap().0, dt(0, 20, 0));
    assert_eq!(b.worst().unwrap().1, SampleEval::Colliding(30));
}

#[test]
fn full_buffer_evicts_worst_only_for_better() {
    let mut b = BestSamples::new(2, thr(0, 0));
    assert!(b.upper_bound().is_none());
    assert!(b.report(dt(0, 0, 0), SampleEval::Colliding(5)));
    assert!(b.report(dt(0, 5, 0), SampleEval::Colliding(9)));
    assert_eq!(b.upper_bound(), Some(SampleEval::Colliding(9)));
    assert!(!b.report(dt(0, 9, 0), SampleEval::Colliding(9)));
    assert!(b.report(dt(0, 9, 0), SampleEval::Colliding(7)));
    assert_eq!(b.samples.len(), 2);
    assert_eq!(b.upper_bound(), Some(SampleEval::Colliding(7)));
    assert_eq!(b.take_best(), Some((dt(0, 0, 0), SampleEval::Colliding(5))));
}

#[test]
fn near_duplicates_are_refused() {
    let mut b = BestSamples::new(5, thr(2, 2));
    assert!(b.report(dt(0, 10, 10), SampleEval::Colliding(50)));
    assert!(!b.report(dt(1, 12, 8), SampleEval::Colliding(1)));
    assert!(b.report(dt(0, 13, 10), SampleEval::Colliding(1)));
    assert_eq!(b.samples.len(), 2);
}

#[test]
fn report_twice_is_refused() {
    let mut b = BestSamples::new(4, thr(0, 0));
    assert!(b.report(dt(3, 4, 5), SampleEval::Valid(2)));
    assert!(!b.report(dt(3, 4, 5), SampleEval::Valid(2)));
    assert_eq!(b.samples.len(), 1);
}

#[test]
fn empty_buffer_has_no_best() {
    let b = BestSamples::new(1, thr(0, 0));
    assert!(b.best().is_none());
    assert!(b.worst().is_none());
    assert!(b.upper_bound().is_none());
    assert!(b.take_best().is_none());
}

#[test]
fn duplicate_test_uses_every_component() {
    assert!(transforms_are_duplicates(dt(0, 0, 0), dt(-3, 3, -3), thr(3, 3)));
    assert!(!transforms_are_duplicates(dt(0, 0, 0), dt(0, 0, 4), thr(3, 3)));
    assert!(transforms_are_duplicates(dt(i64::MIN, 0, 0), dt(i64::MAX, 0, 0), thr(u64::MAX, 0)));
    assert!(!transforms_are_duplicates(dt(i64::MIN, 0, 0), dt(i64::MAX, 0, 0), thr(u64::MAX - 1, u64::MAX)));
}

#[test]
fn rotation_and_translation_have_their_own_bounds() {
    assert!(transforms_are_duplicates(dt(1, 40, -40), dt(0, 0, 0), thr(1, 50)));
    assert!(!transforms_are_duplicates(dt(2, 0, 0), dt(0, 0, 0), thr(1, 50)));
    assert!(!transforms_are_duplicates(dt(0, 51, 0), dt(0, 0, 0), thr(1, 50)));
}

#[test]
fn zero_capacity_buffer_is_empty() {
    let b = BestSamples::new(0, thr(1, 2));
    assert_eq!(b.capacity, 0);
    assert_eq!(b.unique_threshold, thr(1, 2));
    assert!(b.samples.is_empty());
    assert!(b.best().is_none());
    assert!(b.upper_bound().is_none());
}
