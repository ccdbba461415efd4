use gls_strip_packing::best_samples::DTransf;
use gls_strip_packing::sample_eval::SampleEval;
use gls_strip_packing::sampler::{coordinate_in_range, CoordinateDescent, PRE_REF_CD_INIT, PRE_REF_CD_LIMIT};

fn start() -> CoordinateDescent {
    CoordinateDescent::new(DTransf { rotation: 0, tx: 100, ty: 200 }, SampleEval::Colliding(50), 1000, PRE_REF_CD_INIT, PRE_REF_CD_LIMIT, 10)
}

#[test]
fn steps_follow_min_dimension() {
    let cd = start();
    assert_eq!(cd.step, 250);
    assert_eq!(cd.step_limit, 20);
    assert!(!cd.is_done());
}

#[test]
fn candidates_move_along_each_axis() {
    let cd = start();
    let c = cd.candidates();
    assert_eq!(c[0], DTransf { rotation: 0, tx: 350, ty: 200 });
    assert_eq!(c[1], DTransf { rotation: 0, tx: -150, ty: 200 });
    assert_eq!(c[2], DTransf { rotation: 0, tx: 100, ty: 450 });
    assert_eq!(c[3], DTransf { rotation: 0, tx: 100, ty: -50 });
}

#[test]
fn improving_move_is_taken_and_step_grows() {
    let mut cd = start();
    cd.report(&vec![SampleEval::Colliding(60), SampleEval::Colliding(40), SampleEval::Invalid, SampleEval::Colliding(40)]);
    assert_eq!(cd.current, DTransf { rotation: 0, tx: -150, ty: 200 });
    assert_eq!(cd.current_eval, SampleEval::Colliding(40));
    assert_eq!(cd.step, 275);
    assert_eq!(cd.n_iters, 1);
}

#[test]
fn no_improvement_halves_step() {
    let mut cd = start();
    cd.report(&vec![SampleEval::Colliding(50), SampleEval::Invalid, SampleEval::Colliding(51), SampleEval::Invalid]);
    assert_eq!(cd.current, DTransf { rotation: 0, tx: 100, ty: 200 });
    assert_eq!(cd.step, 125);
    for _ in 0..3 {
        cd.report(&vec![SampleEval::Invalid; 4]);
    }
    assert_eq!(cd.step, 15);
    assert!(cd.is_done());
}

#[test]
fn moves_clamp_at_coordinate_range() {
    let cd = CoordinateDescent::new(DTransf { rotation: 1, tx: i64::MAX - 1, ty: i64::MIN + 1 }, SampleEval::Invalid, 1000, 1000, 0, 1);
    let c = cd.candidates();
    assert_eq!(c[0].tx, i64::MAX);
    assert_eq!(c[3].ty, i64::MIN);
}

#[test]
fn uniform_coordinates_stay_in_range() {
    assert_eq!(coordinate_in_range(-5, 5, 0), -5);
    assert_eq!(coordinate_in_range(-5, 5, 10), 5);
    assert_eq!(coordinate_in_range(-5, 5, 11), -5);
    assert_eq!(coordinate_in_range(i64::MIN, i64::MAX, u64::MAX), i64::MAX);
}
