use gls_strip_packing::evaluator::{calc_overlap_cost, Collision, HazardEntity, SeparationSampleEvaluator};
use gls_strip_packing::sample_eval::SampleEval;
use gls_strip_packing::tracker::OverlapTracker;

fn hit(hazard: HazardEntity, overlap: u32) -> Collision {
    Collision { hazard, overlap }
}

fn tracker_with_weights() -> OverlapTracker {
    let mut t = OverlapTracker::new(3);
    t.set_pair_overlap(0, 1, 10);
    t.increment_weights();
    t.set_pair_overlap(0, 1, 0);
    t
}

#[test]
fn cost_uses_pair_and_bin_weights() {
    let t = tracker_with_weights();
    let hits = vec![hit(HazardEntity::PlacedItem(1), 3), hit(HazardEntity::BinExterior, 5)];
    assert_eq!(calc_overlap_cost(&t, 0, &hits), 3 * 2000 + 5 * 1000);
    assert_eq!(calc_overlap_cost(&t, 0, &vec![]), 0);
}

#[test]
fn no_hazards_is_valid() {
    let t = OverlapTracker::new(2);
    let mut e = SeparationSampleEvaluator::new(&t, 0);
    assert_eq!(e.eval(&vec![], &vec![], None), SampleEval::Valid(0));
    assert_eq!(e.n_evals(), 1);
}

#[test]
fn full_cost_adds_extra_hazards() {
    let t = tracker_with_weights();
    let mut e = SeparationSampleEvaluator::new(&t, 0);
    let surr = vec![hit(HazardEntity::PlacedItem(1), 2)];
    let extra = vec![hit(HazardEntity::PlacedItem(2), 7)];
    assert_eq!(e.eval(&surr, &extra, None), SampleEval::Colliding(4000 + 7000));
    assert_eq!(e.eval(&vec![], &extra, None), SampleEval::Colliding(7000));
}

#[test]
fn early_exit_above_bound() {
    let t = tracker_with_weights();
    let mut e = SeparationSampleEvaluator::new(&t, 0);
    let surr = vec![hit(HazardEntity::PlacedItem(1), 2)];
    let extra = vec![hit(HazardEntity::PlacedItem(2), 7)];
    assert_eq!(e.eval(&surr, &extra, Some(SampleEval::Colliding(3999))), SampleEval::Invalid);
    assert_eq!(e.eval(&surr, &extra, Some(SampleEval::Colliding(4000))), SampleEval::Colliding(11000));
    assert_eq!(e.eval(&surr, &extra, Some(SampleEval::Valid(0))), SampleEval::Colliding(11000));
    assert_eq!(e.n_evals(), 3);
}

#[test]
fn obstacles_are_invalid() {
    let t = OverlapTracker::new(2);
    let mut e = SeparationSampleEvaluator::new(&t, 1);
    let extra = vec![hit(HazardEntity::Obstacle, 1)];
    assert_eq!(e.eval(&vec![], &extra, None), SampleEval::Invalid);
}

#[test]
fn smallest_collision_still_scores_positive() {
    let t = OverlapTracker::new(2);
    let mut e = SeparationSampleEvaluator::new(&t, 0);
    assert_eq!(e.eval(&vec![hit(HazardEntity::BinExterior, 1)], &vec![], None), SampleEval::Colliding(1000));
    assert_eq!(e.eval(&vec![], &vec![hit(HazardEntity::PlacedItem(1), 1)], Some(SampleEval::Colliding(0))), SampleEval::Colliding(1000));
}

#[test]
fn surrogate_stage_exits_early_only_above_bound() {
    let t = tracker_with_weights();
    let e = SeparationSampleEvaluator::new(&t, 0);
    let surr = vec![hit(HazardEntity::PlacedItem(1), 2)];
    assert_eq!(e.eval_surrogate(&surr, Some(SampleEval::Colliding(3999))), Some(SampleEval::Invalid));
    assert_eq!(e.eval_surrogate(&surr, Some(SampleEval::Colliding(4000))), None);
    assert_eq!(e.eval_surrogate(&surr, Some(SampleEval::Valid(0))), None);
    assert_eq!(e.eval_surrogate(&surr, None), None);
    assert_eq!(e.eval_surrogate(&vec![hit(HazardEntity::Obstacle, 1)], None), Some(SampleEval::Invalid));
}
