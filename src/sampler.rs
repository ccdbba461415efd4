use vstd::prelude::*;
use crate::best_samples::DTransf;
use crate::sample_eval::{SampleEval, eval_lt};

verus! {

/// Step multiplier after an improving move, in thousandths (1.1).
pub const CD_STEP_SUCCESS: u64 = 1100;

/// Step multiplier after a move that did not improve, in thousandths (0.5).
pub const CD_STEP_FAIL: u64 = 500;

/// First refinement: initial step as thousandths of the item's smallest dimension.
pub const PRE_REF_CD_INIT: u64 = 250;

/// First refinement: smallest step as thousandths of the item's smallest dimension.
pub const PRE_REF_CD_LIMIT: u64 = 20;

/// Final refinement: initial step as thousandths of the item's smallest dimension.
pub const FIN_REF_CD_INIT: u64 = 10;

/// Final refinement: smallest step as thousandths of the item's smallest dimension.
pub const FIN_REF_CD_LIMIT: u64 = 1;

/// `x + d`, clamped to the range of `i64`.
pub open spec fn shifted(x: i64, d: int) -> i64 {
    let v = x + d;
    if v > i64::MAX {
        i64::MAX
    } else if v < i64::MIN {
        i64::MIN
    } else {
        v as i64
    }
}

/// The four axial moves of `t` by `step`: `+x`, `-x`, `+y`, `-y`; rotation is kept.
pub open spec fn axial_moves(t: DTransf, step: int) -> Seq<DTransf> {
    seq![
        DTransf { tx: shifted(t.tx, step), ..t },
        DTransf { tx: shifted(t.tx, -step), ..t },
        DTransf { ty: shifted(t.ty, step), ..t },
        DTransf { ty: shifted(t.ty, -step), ..t },
    ]
}

/// Index of the first smallest of the first `n` evaluations.
pub open spec fn argmin(s: Seq<SampleEval>, n: int) -> int
    decreases n,
{
    if n <= 1 {
        0
    } else {
        let m = argmin(s, n - 1);
        if eval_lt(s[n - 1], s[m]) {
            n - 1
        } else {
            m
        }
    }
}

pub open spec fn grown(step: int) -> int {
    let v = step * CD_STEP_SUCCESS / 1000;
    if v > u64::MAX {
        u64::MAX as int
    } else {
        v
    }
}

/// `ratio` thousandths of `min_dim`, saturating at `u64::MAX`.
pub open spec fn scaled_step(min_dim: int, ratio: int) -> int {
    let v = min_dim * ratio / 1000;
    if v > u64::MAX {
        u64::MAX as int
    } else {
        v
    }
}

fn scale_step(min_dim: u64, ratio: u64) -> (r: u64)
    ensures
        r == scaled_step(min_dim as int, ratio as int),
{
    proof {
        assert(0 <= min_dim * ratio <= 0xffff_ffff_ffff_ffff * 0xffff_ffff_ffff_ffff) by (nonlinear_arith)
            requires
                0 <= min_dim <= 0xffff_ffff_ffff_ffff,
                0 <= ratio <= 0xffff_ffff_ffff_ffff,
        ;
    }
    let v: u128 = (min_dim as u128) * (ratio as u128) / 1000;
    if v > u64::MAX as u128 {
        u64::MAX
    } else {
        v as u64
    }
}

fn shift(x: i64, d: i128) -> (r: i64)
    requires
        -0x1_0000_0000_0000_0000 <= d <= 0x1_0000_0000_0000_0000,
    ensures
        r == shifted(x, d as int),
{
    let v: i128 = x as i128 + d;
    if v > i64::MAX as i128 {
        i64::MAX
    } else if v < i64::MIN as i128 {
        i64::MIN
    } else {
        v as i64
    }
}

/// Coordinate-descent refinement of one sample: tries the four axial moves at the
/// current step, moves to the best of them when it is strictly better, and grows the
/// step after a move and halves it otherwise.
#[derive(Clone, Copy, Debug, PartialEq, Eq, Structural)]
pub struct CoordinateDescent {
    pub current: DTransf,
    pub current_eval: SampleEval,
    pub step: u64,
    pub step_limit: u64,
    pub n_iters: usize,
    pub max_iters: usize,
}

impl CoordinateDescent {
    /// Starts at `start` with steps given in thousandths of `min_dim`, each saturating
    /// at the largest step.
    pub fn new(
        start: DTransf,
        eval: SampleEval,
        min_dim: u64,
        init_ratio: u64,
        limit_ratio: u64,
        max_iters: usize,
    ) -> (r: CoordinateDescent)
        ensures
            r.current == start,
            r.current_eval == eval,
            r.step == scaled_step(min_dim as int, init_ratio as int),
            r.step_limit == scaled_step(min_dim as int, limit_ratio as int),
            r.n_iters == 0,
            r.max_iters == max_iters,
    {
        let step = scale_step(min_dim, init_ratio);
        let step_limit = scale_step(min_dim, limit_ratio);
        CoordinateDescent { current: start, current_eval: eval, step, step_limit, n_iters: 0, max_iters }
    }

    /// Whether the refinement is over: the step fell below its limit or the iterations
    /// ran out.
    pub fn is_done(&self) -> (r: bool)
        ensures
            r == (self.step < self.step_limit || self.n_iters >= self.max_iters),
    {
        self.step < self.step_limit || self.n_iters >= self.max_iters
    }

    /// The candidates of the next iteration.
    pub fn candidates(&self) -> (r: Vec<DTransf>)
        ensures
            r@ == axial_moves(self.current, self.step as int),
    {
        let t = self.current;
        let d = self.step as i128;
        let nd = -d;
        let v = vec![
            DTransf { tx: shift(t.tx, d), ..t },
            DTransf { tx: shift(t.tx, nd), ..t },
            DTransf { ty: shift(t.ty, d), ..t },
            DTransf { ty: shift(t.ty, nd), ..t },
        ];
        assert(v@ =~= axial_moves(t, self.step as int));
        v
    }

    /// Takes the evaluations of `candidates()`, in the same order.
    pub fn report(&mut self, evals: &Vec<SampleEval>)
        requires
            evals@.len() == 4,
            old(self).n_iters < old(self).max_iters,
        ensures
            ({
                let k = argmin(evals@, 4);
                let improved = eval_lt(evals@[k], old(self).current_eval);
                &&& 0 <= k < 4
                &&& final(self).n_iters == old(self).n_iters + 1
                &&& final(self).max_iters == old(self).max_iters
                &&& final(self).step_limit == old(self).step_limit
                &&& improved ==> final(self).current == axial_moves(old(self).current, old(self).step as int)[k]
                    && final(self).current_eval == evals@[k] && final(self).step == grown(old(self).step as int)
                &&& !improved ==> final(self).current == old(self).current && final(self).current_eval
                    == old(self).current_eval && final(self).step == old(self).step / 2
            }),
    {
        let cands = self.candidates();
        let mut k: usize = 0;
        let mut i: usize = 1;
        while i < 4
            invariant
                evals@.len() == 4,
                1 <= i <= 4,
                k == argmin(evals@, i as int),
                0 <= k < i,
            decreases 4 - i,
        {
            if evals[i].is_better_than(&evals[k]) {
                k = i;
            }
            i = i + 1;
        }
        if evals[k].is_better_than(&self.current_eval) {
            self.current = cands[k];
            self.current_eval = evals[k];
            let v: u128 = (self.step as u128) * (CD_STEP_SUCCESS as u128) / 1000;
            self.step = if v > u64::MAX as u128 { u64::MAX } else { v as u64 };
        } else {
            self.step = self.step / 2;
        }
        self.n_iters = self.n_iters + 1;
    }
}

/// A coordinate on `[lo, hi]` from a uniformly drawn `draw`.
pub fn coordinate_in_range(lo: i64, hi: i64, draw: u64) -> (r: i64)
    requires
        lo <= hi,
    ensures
        lo <= r <= hi,
        r == lo + draw as int % (hi - lo + 1),
{
    let span: u128 = (hi as i128 - lo as i128 + 1) as u128;
    let off: u128 = (draw as u128) % span;
    (lo as i128 + off as i128) as i64
}

} // verus!
