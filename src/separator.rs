use vstd::prelude::*;
use crate::tracker::OverlapTracker;

verus! {

/// How many candidate placements the sampler draws for one item.
#[derive(Clone, Copy, Debug, PartialEq, Eq, Structural)]
pub struct SampleConfig {
    pub n_bin_samples: usize,
    pub n_focussed_samples: usize,
    pub n_coord_descents: usize,
}

/// Limits of one separator run.
#[derive(Clone, Copy, Debug, PartialEq, Eq, Structural)]
pub struct SeparatorConfig {
    pub iter_no_imprv_limit: usize,
    pub strike_limit: usize,
    pub n_workers: usize,
    pub sample_config: SampleConfig,
}

impl SampleConfig {
    /// Sampling for relocating an item during separation.
    pub fn separation() -> (r: SampleConfig)
        ensures
            r == (SampleConfig { n_bin_samples: 50, n_focussed_samples: 25, n_coord_descents: 3 }),
    {
        SampleConfig { n_bin_samples: 50, n_focussed_samples: 25, n_coord_descents: 3 }
    }

    /// Sampling for the initial left-bottom-fill construction.
    pub fn lbf() -> (r: SampleConfig)
        ensures
            r == (SampleConfig { n_bin_samples: 1000, n_focussed_samples: 0, n_coord_descents: 3 }),
    {
        SampleConfig { n_bin_samples: 1000, n_focussed_samples: 0, n_coord_descents: 3 }
    }
}

impl SeparatorConfig {
    /// Limits used while exploring.
    pub fn explore() -> (r: SeparatorConfig)
        ensures
            r.iter_no_imprv_limit == 200,
            r.strike_limit == 3,
            r.n_workers == 3,
            r.sample_config == (SampleConfig { n_bin_samples: 50, n_focussed_samples: 25, n_coord_descents: 3 }),
    {
        SeparatorConfig {
            iter_no_imprv_limit: 200,
            strike_limit: 3,
            n_workers: 3,
            sample_config: SampleConfig::separation(),
        }
    }

    /// Limits used while compressing.
    pub fn compress() -> (r: SeparatorConfig)
        ensures
            r.iter_no_imprv_limit == 100,
            r.strike_limit == 5,
            r.n_workers == 3,
            r.sample_config == (SampleConfig { n_bin_samples: 50, n_focussed_samples: 25, n_coord_descents: 3 }),
    {
        SeparatorConfig {
            iter_no_imprv_limit: 100,
            strike_limit: 5,
            n_workers: 3,
            sample_config: SampleConfig::separation(),
        }
    }
}

/// What the separator does after a pass over the items.
#[derive(Clone, Copy, Debug, PartialEq, Eq, Structural)]
pub enum PassOutcome {
    /// The layout is free of overlap: record it and stop.
    Feasible,
    /// Run another pass.
    Continue,
    /// Stagnation: jolt the most overlapping items, raise and decay the weights, go on.
    Strike,
    /// The strike limit is reached: stop without a feasible layout.
    Exhausted,
}

/// A pass improved the objective when it fell by more than a thousandth of its value.
pub open spec fn improved(prev: u128, next: u128) -> bool {
    next < prev && prev - next > prev / 1000
}

/// Stagnation bookkeeping of one separator run.
#[derive(Clone, Copy, Debug, PartialEq, Eq, Structural)]
pub struct SeparatorProgress {
    pub iters_no_improvement: usize,
    pub strikes: usize,
    pub last_overlap: u128,
}

impl SeparatorProgress {
    pub open spec fn within(&self, cfg: SeparatorConfig) -> bool {
        self.iters_no_improvement < cfg.iter_no_imprv_limit && self.strikes < cfg.strike_limit
    }

    /// Progress at the start of a run whose layout has weighted overlap `overlap`.
    pub fn new(overlap: u128) -> (r: SeparatorProgress)
        ensures
            r.iters_no_improvement == 0,
            r.strikes == 0,
            r.last_overlap == overlap,
    {
        SeparatorProgress { iters_no_improvement: 0, strikes: 0, last_overlap: overlap }
    }

    /// Whether the run goes on.
    pub fn is_running(&self, cfg: &SeparatorConfig) -> (r: bool)
        ensures
            r == (self.strikes < cfg.strike_limit),
    {
        self.strikes < cfg.strike_limit
    }

    /// Records a pass that left weighted overlap `overlap`, with `feasible` telling
    /// whether no overlap at all remains, and decides what comes next.
    pub fn record_pass(&mut self, cfg: &SeparatorConfig, overlap: u128, feasible: bool) -> (r: PassOutcome)
        requires
            old(self).within(*cfg),
        ensures
            final(self).last_overlap == overlap,
            feasible ==> {
                &&& final(self).iters_no_improvement == 0
                &&& final(self).strikes == old(self).strikes
                &&& r == PassOutcome::Feasible
            },
            !feasible && improved(old(self).last_overlap, overlap) ==> {
                &&& final(self).iters_no_improvement == 0
                &&& final(self).strikes == old(self).strikes
                &&& r == PassOutcome::Continue
            },
            !feasible && !improved(old(self).last_overlap, overlap) && old(self).iters_no_improvement + 1
                < cfg.iter_no_imprv_limit ==> {
                &&& final(self).iters_no_improvement == old(self).iters_no_improvement + 1
                &&& final(self).strikes == old(self).strikes
                &&& r == PassOutcome::Continue
            },
            !feasible && !improved(old(self).last_overlap, overlap) && old(self).iters_no_improvement + 1
                >= cfg.iter_no_imprv_limit ==> {
                &&& final(self).iters_no_improvement == 0
                &&& final(self).strikes == old(self).strikes + 1
                &&& r == if old(self).strikes + 1 >= cfg.strike_limit {
                    PassOutcome::Exhausted
                } else {
                    PassOutcome::Strike
                }
            },
            r != PassOutcome::Exhausted && r != PassOutcome::Feasible ==> final(self).within(*cfg),
    {
        let prev = self.last_overlap;
        self.last_overlap = overlap;
        if feasible {
            self.iters_no_improvement = 0;
            PassOutcome::Feasible
        } else if overlap < prev && prev - overlap > prev / 1000 {
            self.iters_no_improvement = 0;
            PassOutcome::Continue
        } else {
            self.iters_no_improvement = self.iters_no_improvement + 1;
            if self.iters_no_improvement >= cfg.iter_no_imprv_limit {
                self.strikes = self.strikes + 1;
                self.iters_no_improvement = 0;
                if self.strikes >= cfg.strike_limit {
                    PassOutcome::Exhausted
                } else {
                    PassOutcome::Strike
                }
            } else {
                PassOutcome::Continue
            }
        }
    }
}

/// `a` comes strictly before `b`: a larger key, or an equal key and a smaller index.
pub open spec fn precedes(a: (u128, usize), b: (u128, usize)) -> bool {
    a.0 > b.0 || (a.0 == b.0 && a.1 < b.1)
}

/// Keys decrease along `s`, indices increase among equal keys.
pub open spec fn sorted_desc(s: Seq<(u128, usize)>) -> bool {
    forall|i: int, j: int| 0 <= i < j < s.len() ==> !precedes(#[trigger] s[j], #[trigger] s[i])
}

/// `entries` reordered by decreasing key, ties broken by increasing index.
pub fn order_by_key_desc(entries: &Vec<(u128, usize)>) -> (r: Vec<(u128, usize)>)
    ensures
        r@.to_multiset() == entries@.to_multiset(),
        r@.len() == entries@.len(),
        sorted_desc(r@),
{
    broadcast use vstd::seq_lib::group_to_multiset_ensures;

    let mut r: Vec<(u128, usize)> = Vec::new();
    let mut k: usize = 0;
    while k < entries.len()
        invariant
            k <= entries@.len(),
            r@.len() == k,
            r@.to_multiset() == entries@.take(k as int).to_multiset(),
            sorted_desc(r@),
        decreases entries@.len() - k,
    {
        let e = entries[k];
        let mut p: usize = 0;
        while p < r.len() && !(e.0 > r[p].0 || (e.0 == r[p].0 && e.1 < r[p].1))
            invariant
                p <= r@.len(),
                forall|i: int| 0 <= i < p ==> !precedes(e, #[trigger] r@[i]),
            decreases r@.len() - p,
        {
            p = p + 1;
        }
        let ghost old_r = r@;
        r.insert(p, e);
        proof {
            vstd::seq_lib::to_multiset_insert(old_r, p as int, e);
            assert(entries@.take(k + 1) == entries@.take(k as int).push(e));
            vstd::seq_lib::to_multiset_build(entries@.take(k as int), e);
            assert forall|i: int, j: int| 0 <= i < j < r@.len() implies !precedes(#[trigger] r@[j], #[trigger] r@[i]) by {
                if i < p && j > p {
                    assert(r@[i] == old_r[i]);
                    assert(r@[j] == old_r[j - 1]);
                }
                if i == p && j > p {
                    assert(r@[j] == old_r[j - 1]);
                    assert(!precedes(old_r[j - 1], old_r[p as int]));
                }
            }
        }
        k = k + 1;
    }
    assert(entries@.take(entries@.len() as int) == entries@);
    r
}

/// Every item paired with its weighted overlap, by index.
pub open spec fn weighted_entries(t: OverlapTracker) -> Seq<(u128, usize)> {
    Seq::new(t.n as nat, |i: int| (t.weighted_overlap_of(i) as u128, i as usize))
}

/// The order in which a pass visits the items: most weighted overlap first, ties by
/// index.
pub fn relocation_order(t: &OverlapTracker) -> (r: Vec<(u128, usize)>)
    requires
        t.wf(),
    ensures
        r@.to_multiset() == weighted_entries(*t).to_multiset(),
        r@.len() == t.n,
        sorted_desc(r@),
{
    let mut entries: Vec<(u128, usize)> = Vec::new();
    let mut i: usize = 0;
    while i < t.n
        invariant
            t.wf(),
            i <= t.n,
            entries@ == weighted_entries(*t).take(i as int),
        decreases t.n - i,
    {
        let w = t.get_weighted_overlap(i);
        entries.push((w, i));
        assert(entries@ =~= weighted_entries(*t).take(i + 1));
        i = i + 1;
    }
    assert(entries@ =~= weighted_entries(*t));
    order_by_key_desc(&entries)
}

} // verus!
