use vstd::prelude::*;

verus! {

/// Share of the time budget spent exploring, in percent.
pub const EXPLORE_TIME_PERCENT: u64 = 80;

/// Width removed per exploration attempt, in parts per million (0.1%).
pub const EXPLORE_SHRINK_STEP_PPM: u64 = 1000;

/// Smallest width removed per compression attempt, in parts per million.
pub const COMPRESS_SHRINK_MIN_PPM: u64 = 10;

/// Largest width removed per compression attempt, in parts per million.
pub const COMPRESS_SHRINK_MAX_PPM: u64 = 500;

/// Items whose convex hull covers more than this percentage of the bin are placed first.
pub const LARGE_AREA_CH_AREA_CUTOFF_PERCENT: u64 = 50;

pub open spec fn shrunk(width: int, step_ppm: int) -> int {
    width - width * step_ppm / 1_000_000
}

/// `width` less `step_ppm` millionths of it, rounded so that the result never grows.
pub fn shrink_width(width: u64, step_ppm: u64) -> (r: u64)
    requires
        step_ppm <= 1_000_000,
    ensures
        r == shrunk(width as int, step_ppm as int),
        r <= width,
{
    proof {
        assert(width * step_ppm <= width * 1_000_000) by (nonlinear_arith)
            requires
                step_ppm <= 1_000_000,
                width >= 0,
        ;
        vstd::arithmetic::div_mod::lemma_div_is_ordered(width * step_ppm, width * 1_000_000, 1_000_000);
        vstd::arithmetic::div_mod::lemma_div_multiples_vanish(width as int, 1_000_000);
        assert(width * 1_000_000 == 1_000_000 * width);
        assert(width * step_ppm >= 0) by (nonlinear_arith)
            requires
                step_ppm >= 0,
                width >= 0,
        ;
    }
    let cut = ((width as u128) * (step_ppm as u128) / 1_000_000) as u64;
    width - cut
}

/// Compression step for a uniformly drawn `draw`, within the compression range.
pub fn compress_step_ppm(draw: u64) -> (r: u64)
    ensures
        r == COMPRESS_SHRINK_MIN_PPM + draw as int % (COMPRESS_SHRINK_MAX_PPM - COMPRESS_SHRINK_MIN_PPM + 1),
        COMPRESS_SHRINK_MIN_PPM <= r <= COMPRESS_SHRINK_MAX_PPM,
{
    COMPRESS_SHRINK_MIN_PPM + draw % (COMPRESS_SHRINK_MAX_PPM - COMPRESS_SHRINK_MIN_PPM + 1)
}

/// Part of a time budget of `total` spent exploring.
pub fn explore_budget(total: u64) -> (r: u64)
    ensures
        r == total as int * EXPLORE_TIME_PERCENT / 100,
        r <= total,
{
    let pct: u128 = EXPLORE_TIME_PERCENT as u128;
    assert(pct == 80);
    ((total as u128) * pct / 100) as u64
}

/// Whether an item of convex-hull area `ch_area` is large for a bin of area `bin_area`.
pub fn is_large_item(ch_area: u64, bin_area: u64) -> (r: bool)
    ensures
        r == (ch_area as int * 100 > bin_area as int * LARGE_AREA_CH_AREA_CUTOFF_PERCENT),
{
    let pct: u128 = LARGE_AREA_CH_AREA_CUTOFF_PERCENT as u128;
    assert(pct == 50);
    (ch_area as u128) * 100 > (bin_area as u128) * pct
}

/// Strip widths of the shrink-and-separate cycle: the narrowest width with a feasible
/// layout so far, and the width being attempted.
#[derive(Clone, Copy, Debug, PartialEq, Eq, Structural)]
pub struct StripProgress {
    pub best_feasible_width: u64,
    pub current_width: u64,
}

impl StripProgress {
    pub open spec fn wf(&self) -> bool {
        self.current_width <= self.best_feasible_width
    }

    /// Starts from a feasible layout of width `width`.
    pub fn new(width: u64) -> (r: StripProgress)
        ensures
            r.wf(),
            r.best_feasible_width == width,
            r.current_width == width,
    {
        StripProgress { best_feasible_width: width, current_width: width }
    }

    /// Records whether the attempt at the current width ended feasible, and returns the
    /// next width to attempt: `step_ppm` narrower than the best feasible width, which the
    /// current width becomes when the attempt succeeded and stays otherwise.
    pub fn after_attempt(&mut self, feasible: bool, step_ppm: u64) -> (r: u64)
        requires
            old(self).wf(),
            step_ppm <= 1_000_000,
        ensures
            final(self).wf(),
            final(self).best_feasible_width == if feasible {
                old(self).current_width
            } else {
                old(self).best_feasible_width
            },
            r == shrunk(final(self).best_feasible_width as int, step_ppm as int),
            final(self).current_width == r,
    {
        if feasible {
            self.best_feasible_width = self.current_width;
        }
        self.current_width = shrink_width(self.best_feasible_width, step_ppm);
        self.current_width
    }
}

} // verus!
