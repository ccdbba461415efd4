use gls_strip_packing::sample_eval::SampleEval;
use std::cmp::Ordering;

#[test]
fn valid_orders_by_cost() {
    assert!(SampleEval::Valid(1) < SampleEval::Valid(2));
    assert!(!(SampleEval::Valid(2) < SampleEval::Valid(1)));
    assert_eq!(SampleEval::Valid(3).compare(&SampleEval::Valid(3)), Ordering::Equal);
}

#[test]
fn groups_are_ordered() {
    assert!(SampleEval::Valid(1_000_000) < SampleEval::Colliding(0));
    assert!(SampleEval::Colliding(u128::MAX) < SampleEval::Invalid);
    assert!(SampleEval::Valid(5) < SampleEval::Invalid);
    assert_eq!(SampleEval::Invalid.compare(&SampleEval::Invalid), Ordering::Equal);
    assert_eq!(SampleEval::Invalid.compare(&SampleEval::Valid(0)), Ordering::Greater);
}

#[test]
fn colliding_orders_by_cost() {
    assert!(SampleEval::Colliding(7).is_better_than(&SampleEval::Colliding(8)));
    assert!(!SampleEval::Colliding(8).is_better_than(&SampleEval::Colliding(8)));
}
