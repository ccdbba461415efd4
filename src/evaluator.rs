use vstd::prelude::*;
use crate::sample_eval::SampleEval;
use crate::tracker::{OverlapTracker, WEIGHT_CAP};

verus! {

/// Something a candidate placement can collide with.
#[derive(Clone, Copy, Debug, PartialEq, Eq, Structural)]
pub enum HazardEntity {
    /// Another placed item, by dense index.
    PlacedItem(usize),
    /// The outside of the bin.
    BinExterior,
    /// A hole in the bin or a quality zone: a hard obstacle.
    Obstacle,
}

/// A detected hazard together with the overlap proxy of the candidate against it.
#[derive(Clone, Copy, Debug, PartialEq, Eq, Structural)]
pub struct Collision {
    pub hazard: HazardEntity,
    pub overlap: u32,
}

/// Every placed item that `hits` names is tracked, and every overlap is positive (an
/// overlap proxy is strictly positive wherever shapes collide).
pub open spec fn hits_in_range(hits: Seq<Collision>, n: int) -> bool {
    forall|k: int| 0 <= k < hits.len() ==> (#[trigger] hits[k]).overlap > 0 && match hits[k].hazard {
        HazardEntity::PlacedItem(j) => j < n,
        _ => true,
    }
}

pub open spec fn has_obstacle(hits: Seq<Collision>) -> bool {
    exists|k: int| 0 <= k < hits.len() && (#[trigger] hits[k]).hazard == HazardEntity::Obstacle
}

/// Weighted cost of one collision for item `item`: the overlap times the pair weight,
/// or times the bin weight for the bin's exterior.
pub open spec fn hazard_cost(t: OverlapTracker, item: int, c: Collision) -> int {
    match c.hazard {
        HazardEntity::PlacedItem(j) => c.overlap * t.pair_weight.at(item, j as int),
        HazardEntity::BinExterior => c.overlap * t.bin_weight@[item],
        HazardEntity::Obstacle => 0,
    }
}

/// Sum of the costs of the first `k` collisions.
pub open spec fn cost_sum(t: OverlapTracker, item: int, hits: Seq<Collision>, k: int) -> int
    decreases k,
{
    if k <= 0 {
        0
    } else {
        cost_sum(t, item, hits, k - 1) + hazard_cost(t, item, hits[k - 1])
    }
}

pub open spec fn total_cost(t: OverlapTracker, item: int, hits: Seq<Collision>) -> int {
    cost_sum(t, item, hits, hits.len() as int)
}

/// Evaluation of a candidate whose surrogate detected `surr` and whose full shape
/// detected `extra` besides, given an optional upper bound.
pub open spec fn eval_spec(
    t: OverlapTracker,
    item: int,
    surr: Seq<Collision>,
    extra: Seq<Collision>,
    upper_bound: Option<SampleEval>,
) -> SampleEval {
    let s = total_cost(t, item, surr);
    if has_obstacle(surr + extra) {
        SampleEval::Invalid
    } else if upper_bound matches Some(SampleEval::Colliding(u)) && s > u {
        SampleEval::Invalid
    } else if surr.len() + extra.len() == 0 {
        SampleEval::Valid(0)
    } else {
        SampleEval::Colliding((s + total_cost(t, item, extra)) as u128)
    }
}

/// Weighted overlap of item `item` against the hazards in `colliding`.
pub fn calc_overlap_cost(t: &OverlapTracker, item: usize, colliding: &Vec<Collision>) -> (r: u128)
    requires
        t.wf(),
        item < t.n,
        hits_in_range(colliding@, t.n as int),
    ensures
        r == total_cost(*t, item as int, colliding@),
        r <= colliding@.len() * 0x1_0000_0000_0000_0000,
{
    let len = colliding.len();
    let mut acc: u128 = 0;
    let mut k: usize = 0;
    while k < len
        invariant
            t.wf(),
            item < t.n,
            hits_in_range(colliding@, t.n as int),
            len == colliding@.len(),
            k <= len,
            acc == cost_sum(*t, item as int, colliding@, k as int),
            acc <= k * 0x1_0000_0000_0000_0000,
        decreases len - k,
    {
        let c = colliding[k];
        let cost: u128 = match c.hazard {
            HazardEntity::PlacedItem(j) => {
                let w = t.get_pair_weight(item, j);
                proof {
                    t.pair_weight.lemma_at_bounded(item as int, j as int);
                    assert(crate::tracker::weight_ok(t.pair_weight.data@[crate::pair_matrix::flat_index(item as int, j as int)]));
                    bound_cost(c.overlap as int, w as int);
                }
                (c.overlap as u128) * (w as u128)
            },
            HazardEntity::BinExterior => {
                let w = t.get_bin_weight(item);
                proof {
                    bound_cost(c.overlap as int, w as int);
                }
                (c.overlap as u128) * (w as u128)
            },
            HazardEntity::Obstacle => 0,
        };
        acc = acc + cost;
        k = k + 1;
    }
    acc
}

proof fn bound_cost(o: int, w: int)
    requires
        0 <= o <= 0xffff_ffff,
        0 <= w <= WEIGHT_CAP,
    ensures
        0 <= o * w < 0x8000_0000_0000_0000,
{
    assert(0 <= o * w <= 0xffff_ffff * 2_000_000_000) by (nonlinear_arith)
        requires
            0 <= o <= 0xffff_ffff,
            0 <= w <= 2_000_000_000,
    ;
}

pub fn contains_obstacle(hits: &Vec<Collision>) -> (r: bool)
    ensures
        r == has_obstacle(hits@),
{
    let mut k: usize = 0;
    while k < hits.len()
        invariant
            k <= hits@.len(),
            forall|q: int| 0 <= q < k ==> (#[trigger] hits@[q]).hazard != HazardEntity::Obstacle,
        decreases hits@.len() - k,
    {
        if hits[k].hazard == HazardEntity::Obstacle {
            return true;
        }
        k = k + 1;
    }
    false
}

/// Scores candidate placements of one item against the tracker's weights.
pub struct SeparationSampleEvaluator<'a> {
    pub tracker: &'a OverlapTracker,
    pub current_pk: usize,
    pub n_evals: usize,
}

impl<'a> SeparationSampleEvaluator<'a> {
    pub fn new(tracker: &'a OverlapTracker, current_pk: usize) -> (r: SeparationSampleEvaluator<'a>)
        ensures
            r.tracker == tracker,
            r.current_pk == current_pk,
            r.n_evals == 0,
    {
        SeparationSampleEvaluator { tracker, current_pk, n_evals: 0 }
    }

    pub fn n_evals(&self) -> (r: usize)
        ensures
            r == self.n_evals,
    {
        self.n_evals
    }

    /// Weighted overlap of the evaluated item against `colliding`.
    pub fn calc_overlap_cost(&self, colliding: &Vec<Collision>) -> (r: u128)
        requires
            self.tracker.wf(),
            self.current_pk < self.tracker.n,
            hits_in_range(colliding@, self.tracker.n as int),
        ensures
            r == total_cost(*self.tracker, self.current_pk as int, colliding@),
            r <= colliding@.len() * 0x1_0000_0000_0000_0000,
    {
        calc_overlap_cost(self.tracker, self.current_pk, colliding)
    }

    /// First stage of an evaluation, from the surrogate's hits alone: `Some(Invalid)` when
    /// they meet an obstacle or already cost more than a `Colliding` upper bound, and then
    /// the full evaluation is `Invalid` whatever the full shape detects besides; `None`
    /// when the full shape must be checked.
    pub fn eval_surrogate(&self, surrogate_hits: &Vec<Collision>, upper_bound: Option<SampleEval>) -> (r: Option<SampleEval>)
        requires
            self.tracker.wf(),
            self.current_pk < self.tracker.n,
            hits_in_range(surrogate_hits@, self.tracker.n as int),
        ensures
            r == if has_obstacle(surrogate_hits@) || (upper_bound matches Some(SampleEval::Colliding(u))
                && total_cost(*self.tracker, self.current_pk as int, surrogate_hits@) > u) {
                Some(SampleEval::Invalid)
            } else {
                None::<SampleEval>
            },
            r.is_some() ==> forall|extra: Seq<Collision>|
                #[trigger] eval_spec(*self.tracker, self.current_pk as int, surrogate_hits@, extra, upper_bound)
                    == SampleEval::Invalid,
    {
        let invalid = if contains_obstacle(surrogate_hits) {
            true
        } else {
            match upper_bound {
                Some(SampleEval::Colliding(u)) => self.calc_overlap_cost(surrogate_hits) > u,
                _ => false,
            }
        };
        proof {
            if invalid {
                assert forall|extra: Seq<Collision>|
                    #[trigger] eval_spec(*self.tracker, self.current_pk as int, surrogate_hits@, extra, upper_bound)
                        == SampleEval::Invalid by {
                    lemma_obstacle_concat(surrogate_hits@, extra);
                }
            }
        }
        if invalid {
            Some(SampleEval::Invalid)
        } else {
            None
        }
    }

    /// Evaluates a candidate from the hazards its surrogate detected and those its full
    /// shape detected besides. When the surrogate's hazards alone already cost more than
    /// a `Colliding` upper bound, the candidate is `Invalid` without looking further.
    pub fn eval(
        &mut self,
        surrogate_hits: &Vec<Collision>,
        extra_hits: &Vec<Collision>,
        upper_bound: Option<SampleEval>,
    ) -> (r: SampleEval)
        requires
            old(self).tracker.wf(),
            old(self).current_pk < old(self).tracker.n,
            hits_in_range(surrogate_hits@, old(self).tracker.n as int),
            hits_in_range(extra_hits@, old(self).tracker.n as int),
            surrogate_hits@.len() + extra_hits@.len() <= usize::MAX,
        ensures
            r == eval_spec(
                *old(self).tracker,
                old(self).current_pk as int,
                surrogate_hits@,
                extra_hits@,
                upper_bound,
            ),
            final(self).tracker == old(self).tracker,
            final(self).current_pk == old(self).current_pk,
            final(self).n_evals == if old(self).n_evals < usize::MAX {
                old(self).n_evals + 1
            } else {
                old(self).n_evals as int
            },
    {
        if self.n_evals < usize::MAX {
            self.n_evals = self.n_evals + 1;
        }
        let surr_cost = self.calc_overlap_cost(surrogate_hits);
        let obstacle = contains_obstacle(surrogate_hits) || contains_obstacle(extra_hits);
        proof {
            lemma_obstacle_concat(surrogate_hits@, extra_hits@);
        }
        if obstacle {
            return SampleEval::Invalid;
        }
        if let Some(SampleEval::Colliding(u)) = upper_bound {
            if surr_cost > u {
                return SampleEval::Invalid;
            }
        }
        if surrogate_hits.len() == 0 && extra_hits.len() == 0 {
            SampleEval::Valid(0)
        } else {
            let extra_cost = self.calc_overlap_cost(extra_hits);
            assert(usize::MAX <= 0xffff_ffff_ffff_ffff);
            SampleEval::Colliding(surr_cost + extra_cost)
        }
    }
}

proof fn lemma_obstacle_concat(a: Seq<Collision>, b: Seq<Collision>)
    ensures
        has_obstacle(a + b) == (has_obstacle(a) || has_obstacle(b)),
{
    if has_obstacle(a + b) {
        let k = choose|k: int| 0 <= k < (a + b).len() && (#[trigger] (a + b)[k]).hazard == HazardEntity::Obstacle;
        if k < a.len() {
            assert(a[k] == (a + b)[k]);
        } else {
            assert(b[k - a.len()] == (a + b)[k]);
        }
    }
    if has_obstacle(a) {
        let k = choose|k: int| 0 <= k < a.len() && (#[trigger] a[k]).hazard == HazardEntity::Obstacle;
        assert((a + b)[k] == a[k]);
    }
    if has_obstacle(b) {
        let k = choose|k: int| 0 <= k < b.len() && (#[trigger] b[k]).hazard == HazardEntity::Obstacle;
        assert((a + b)[a.len() + k] == b[k]);
    }
}

pub proof fn lemma_cost_sum_bounds(t: OverlapTracker, item: int, hits: Seq<Collision>, k: int)
    requires
        t.wf(),
        0 <= item < t.n,
        hits_in_range(hits, t.n as int),
        k <= hits.len(),
    ensures
        0 <= cost_sum(t, item, hits, k),
        k >= 0 ==> cost_sum(t, item, hits, k) <= k * 0x1_0000_0000_0000_0000,
    decreases k,
{
    if k > 0 {
        lemma_cost_sum_bounds(t, item, hits, k - 1);
        let c = hits[k - 1];
        match c.hazard {
            HazardEntity::PlacedItem(j) => {
                t.pair_weight.lemma_at_bounded(item, j as int);
                assert(crate::tracker::weight_ok(t.pair_weight.data@[crate::pair_matrix::flat_index(item, j as int)]));
                bound_cost(c.overlap as int, t.pair_weight.at(item, j as int) as int);
            },
            HazardEntity::BinExterior => {
                bound_cost(c.overlap as int, t.bin_weight@[item] as int);
            },
            HazardEntity::Obstacle => {},
        }
    }
}

/// Early exit is sound: with any upper bound the evaluation either equals the one
/// without a bound, or is `Invalid` where the unbounded one is `Colliding` with a cost
/// above a `Colliding` bound.
pub proof fn lemma_early_exit_sound(
    t: OverlapTracker,
    item: int,
    surr: Seq<Collision>,
    extra: Seq<Collision>,
    upper_bound: SampleEval,
)
    requires
        t.wf(),
        0 <= item < t.n,
        hits_in_range(surr, t.n as int),
        hits_in_range(extra, t.n as int),
        surr.len() + extra.len() <= usize::MAX,
    ensures
        ({
            let bounded = eval_spec(t, item, surr, extra, Some(upper_bound));
            let free = eval_spec(t, item, surr, extra, None);
            bounded == free || (bounded == SampleEval::Invalid && (upper_bound matches SampleEval::Colliding(u)
                && free matches SampleEval::Colliding(c) && c > u))
        }),
{
    lemma_cost_sum_bounds(t, item, surr, surr.len() as int);
    lemma_cost_sum_bounds(t, item, extra, extra.len() as int);
    assert(usize::MAX <= 0xffff_ffff_ffff_ffff);
    if surr.len() + extra.len() == 0 {
        assert(total_cost(t, item, surr) == 0);
    }
}

/// A `Colliding` evaluation always carries a positive cost: every hit has a positive
/// overlap and every weight is at least 1.0.
pub proof fn lemma_colliding_is_positive(
    t: OverlapTracker,
    item: int,
    surr: Seq<Collision>,
    extra: Seq<Collision>,
    upper_bound: Option<SampleEval>,
)
    requires
        t.wf(),
        0 <= item < t.n,
        hits_in_range(surr, t.n as int),
        hits_in_range(extra, t.n as int),
        surr.len() + extra.len() <= usize::MAX,
    ensures
        eval_spec(t, item, surr, extra, upper_bound) matches SampleEval::Colliding(v) ==> v > 0,
{
    lemma_cost_sum_bounds(t, item, surr, surr.len() as int);
    lemma_cost_sum_bounds(t, item, extra, extra.len() as int);
    assert(usize::MAX <= 0xffff_ffff_ffff_ffff);
    if !has_obstacle(surr + extra) {
        lemma_obstacle_concat(surr, extra);
        if surr.len() > 0 {
            lemma_cost_sum_positive(t, item, surr, surr.len() as int);
        } else if extra.len() > 0 {
            lemma_cost_sum_positive(t, item, extra, extra.len() as int);
        }
    }
}

proof fn lemma_cost_sum_positive(t: OverlapTracker, item: int, hits: Seq<Collision>, k: int)
    requires
        t.wf(),
        0 <= item < t.n,
        hits_in_range(hits, t.n as int),
        !has_obstacle(hits),
        0 < k <= hits.len(),
    ensures
        cost_sum(t, item, hits, k) >= 1,
    decreases k,
{
    lemma_cost_sum_bounds(t, item, hits, k - 1);
    let c = hits[k - 1];
    assert(c.overlap > 0);
    if c.hazard == HazardEntity::Obstacle {
        assert(has_obstacle(hits));
    }
    let w: int = match c.hazard {
        HazardEntity::PlacedItem(j) => {
            t.pair_weight.lemma_at_bounded(item, j as int);
            assert(crate::tracker::weight_ok(t.pair_weight.data@[crate::pair_matrix::flat_index(item, j as int)]));
            t.pair_weight.at(item, j as int) as int
        },
        _ => t.bin_weight@[item] as int,
    };
    let o = c.overlap as int;
    assert(o * w >= 1) by (nonlinear_arith)
        requires
            o >= 1,
            w >= 1000,
    ;
}

} // verus!
