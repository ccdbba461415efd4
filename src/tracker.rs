use vstd::prelude::*;
use crate::pair_matrix::{PairMatrix, tri, tri_fits, flat_index, lemma_flat_index_bounds, lemma_flat_index_injective};

verus! {

/// A weight of 1.0, in thousandths.
pub const WEIGHT_UNIT: u32 = 1000;

/// Largest weight the tracker holds.
pub const WEIGHT_CAP: u32 = 2_000_000_000;

/// Smallest weight increment ratio, in thousandths (1.2).
pub const WEIGHT_MIN_INC_RATIO: u64 = 1200;

/// Largest weight increment ratio, in thousandths (2.0).
pub const WEIGHT_MAX_INC_RATIO: u64 = 2000;

/// Weight decay factor, in thousandths (0.95).
pub const WEIGHT_DECAY: u64 = 950;

pub open spec fn weight_ok(w: u32) -> bool {
    WEIGHT_UNIT <= w <= WEIGHT_CAP
}

/// Increment ratio (in thousandths) for weighted overlap `m` when the largest weighted
/// overlap is `mx`: linear from the smallest ratio at zero to the largest at `mx`.
pub open spec fn ratio_for(m: int, mx: int) -> int {
    if mx <= 0 {
        WEIGHT_MIN_INC_RATIO as int
    } else {
        WEIGHT_MIN_INC_RATIO + (WEIGHT_MAX_INC_RATIO - WEIGHT_MIN_INC_RATIO) * m / mx
    }
}

/// A weight multiplied by `ratio` thousandths, capped.
pub open spec fn incremented(w: int, ratio: int) -> int {
    let v = w * ratio / 1000;
    if v > WEIGHT_CAP {
        WEIGHT_CAP as int
    } else {
        v
    }
}

/// A weight after one decay, floored at 1.0.
pub open spec fn decayed(w: int) -> int {
    let v = w * WEIGHT_DECAY / 1000;
    if v < WEIGHT_UNIT {
        WEIGHT_UNIT as int
    } else {
        v
    }
}

/// Sum of `o[k] * w[k]` over the first `k` positions.
pub open spec fn dot(o: Seq<u32>, w: Seq<u32>, k: int) -> int
    decreases k,
{
    if k <= 0 {
        0
    } else {
        dot(o, w, k - 1) + o[k - 1] * w[k - 1]
    }
}

/// Overlap and weight bookkeeping for `n` placed items, addressed by dense index.
///
/// Pair quantities are symmetric and stored once per unordered pair; the overlap of
/// an item with itself is zero.
#[derive(Clone, Debug)]
pub struct OverlapTracker {
    pub n: usize,
    pub pair_overlap: PairMatrix,
    pub pair_weight: PairMatrix,
    pub bin_overlap: Vec<u32>,
    pub bin_weight: Vec<u32>,
}

impl OverlapTracker {
    pub open spec fn wf(&self) -> bool {
        &&& self.pair_overlap.wf()
        &&& self.pair_weight.wf()
        &&& self.pair_overlap.n == self.n
        &&& self.pair_weight.n == self.n
        &&& self.bin_overlap@.len() == self.n
        &&& self.bin_weight@.len() == self.n
        &&& forall|a: int| 0 <= a < self.n ==> #[trigger] self.pair_overlap.at(a, a) == 0
        &&& forall|k: int|
            0 <= k < self.pair_weight.data@.len() ==> weight_ok(#[trigger] self.pair_weight.data@[k])
        &&& forall|a: int| 0 <= a < self.n ==> weight_ok(#[trigger] self.bin_weight@[a])
    }

    /// Weighted overlap of item `a` against the first `k` items.
    pub open spec fn row_dot(&self, a: int, k: int) -> int
        decreases k,
    {
        if k <= 0 {
            0
        } else {
            self.row_dot(a, k - 1) + self.pair_overlap.at(a, k - 1) * self.pair_weight.at(a, k - 1)
        }
    }

    /// Total weighted overlap of item `a`: against every other item and the bin.
    pub open spec fn weighted_overlap_of(&self, a: int) -> int {
        self.row_dot(a, self.n as int) + self.bin_overlap@[a] * self.bin_weight@[a]
    }

    /// Weighted overlap of the whole layout: every unordered pair once, plus the bin.
    pub open spec fn overall_weighted(&self) -> int {
        dot(self.pair_overlap.data@, self.pair_weight.data@, self.pair_overlap.data@.len() as int)
            + dot(self.bin_overlap@, self.bin_weight@, self.n as int)
    }

    /// Largest weighted overlap among the first `k` items.
    pub open spec fn max_weighted_upto(&self, k: int) -> int
        decreases k,
    {
        if k <= 0 {
            0
        } else {
            let m = self.max_weighted_upto(k - 1);
            let w = self.weighted_overlap_of(k - 1);
            if w > m {
                w
            } else {
                m
            }
        }
    }

    /// Increment ratio of item `a`, from its weighted overlap normalised by the largest.
    pub open spec fn item_ratio(&self, a: int) -> int {
        ratio_for(self.weighted_overlap_of(a), self.max_weighted_upto(self.n as int))
    }

    /// Increment ratio of the pair `{a, b}`: the larger of its two items' ratios.
    pub open spec fn pair_ratio(&self, a: int, b: int) -> int {
        let (wa, wb) = (self.weighted_overlap_of(a), self.weighted_overlap_of(b));
        ratio_for(if wa >= wb { wa } else { wb }, self.max_weighted_upto(self.n as int))
    }

    /// Weight of the pair `{a, b}` after one increment of the weights of `self`.
    pub open spec fn pair_weight_after_increment(&self, a: int, b: int) -> u32 {
        if self.pair_overlap.at(a, b) > 0 {
            incremented(self.pair_weight.at(a, b) as int, self.pair_ratio(a, b)) as u32
        } else {
            self.pair_weight.at(a, b)
        }
    }

    /// Bin weight of item `a` after one increment of the weights of `self`.
    pub open spec fn bin_weight_after_increment(&self, a: int) -> u32 {
        if self.bin_overlap@[a] > 0 {
            incremented(self.bin_weight@[a] as int, self.item_ratio(a)) as u32
        } else {
            self.bin_weight@[a]
        }
    }

    /// `self` is `prev` after item `i` was moved: its overlaps against every other item
    /// `j` are `overlaps[j]`, against the bin `bin_overlap`, and nothing else changed.
    pub open spec fn is_move_of(&self, prev: OverlapTracker, i: int, overlaps: Seq<u32>, bin_overlap: u32) -> bool {
        &&& self.n == prev.n
        &&& forall|j: int| 0 <= j < prev.n && j != i ==> #[trigger] self.pair_overlap.at(i, j) == overlaps[j]
        &&& forall|x: int, y: int|
            0 <= x < prev.n && 0 <= y < prev.n && x != i && y != i ==> #[trigger] self.pair_overlap.at(x, y)
                == prev.pair_overlap.at(x, y)
        &&& self.bin_overlap@ == prev.bin_overlap@.update(i, bin_overlap)
        &&& self.pair_weight == prev.pair_weight
        &&& self.bin_weight == prev.bin_weight
    }

    /// Every stored pair overlap equals `fresh` for that pair.
    pub open spec fn pairs_match(&self, fresh: spec_fn(int, int) -> u32) -> bool {
        forall|a: int, b: int| 0 <= a < self.n && 0 <= b < self.n && a != b ==> #[trigger] self.pair_overlap.at(a, b) == fresh(a, b)
    }

    /// A tracker for `n` items without overlap, every weight 1.0.
    pub fn new(n: usize) -> (r: OverlapTracker)
        requires
            tri(n as int) <= usize::MAX,
        ensures
            r.wf(),
            r.n == n,
            forall|a: int, b: int| 0 <= a < n && 0 <= b < n ==> #[trigger] r.pair_overlap.at(a, b) == 0,
            forall|a: int, b: int| 0 <= a < n && 0 <= b < n ==> #[trigger] r.pair_weight.at(a, b) == WEIGHT_UNIT,
            forall|a: int| 0 <= a < n ==> #[trigger] r.bin_overlap@[a] == 0,
            forall|a: int| 0 <= a < n ==> #[trigger] r.bin_weight@[a] == WEIGHT_UNIT,
    {
        let pair_overlap = PairMatrix::new(n, 0);
        let pair_weight = PairMatrix::new(n, WEIGHT_UNIT);
        let mut bin_overlap: Vec<u32> = Vec::new();
        let mut bin_weight: Vec<u32> = Vec::new();
        let mut i: usize = 0;
        while i < n
            invariant
                i <= n,
                bin_overlap@.len() == i,
                bin_weight@.len() == i,
                forall|a: int| 0 <= a < i ==> #[trigger] bin_overlap@[a] == 0,
                forall|a: int| 0 <= a < i ==> #[trigger] bin_weight@[a] == WEIGHT_UNIT,
            decreases n - i,
        {
            bin_overlap.push(0);
            bin_weight.push(WEIGHT_UNIT);
            i = i + 1;
        }
        let r = OverlapTracker { n, pair_overlap, pair_weight, bin_overlap, bin_weight };
        proof {
            assert forall|a: int, b: int| 0 <= a < n && 0 <= b < n implies #[trigger] r.pair_overlap.at(a, b) == 0 by {
                lemma_flat_index_bounds(a, b, n as int);
            }
            assert forall|a: int, b: int| 0 <= a < n && 0 <= b < n implies #[trigger] r.pair_weight.at(a, b) == WEIGHT_UNIT by {
                lemma_flat_index_bounds(a, b, n as int);
            }
        }
        r
    }

    /// A tracker for `n` items as `new` makes it, or `None` when storage for `n` items
    /// cannot be addressed.
    pub fn try_new(n: usize) -> (r: Option<OverlapTracker>)
        ensures
            r.is_some() == (tri(n as int) <= usize::MAX),
            r matches Some(t) ==> {
                &&& t.wf()
                &&& t.n == n
                &&& forall|a: int, b: int| 0 <= a < n && 0 <= b < n ==> #[trigger] t.pair_overlap.at(a, b) == 0
                &&& forall|a: int, b: int| 0 <= a < n && 0 <= b < n ==> #[trigger] t.pair_weight.at(a, b) == WEIGHT_UNIT
                &&& forall|a: int| 0 <= a < n ==> #[trigger] t.bin_overlap@[a] == 0
                &&& forall|a: int| 0 <= a < n ==> #[trigger] t.bin_weight@[a] == WEIGHT_UNIT
            },
    {
        if tri_fits(n) {
            Some(OverlapTracker::new(n))
        } else {
            None
        }
    }

    /// A tracker for a layout whose overlaps were just computed: `fresh` for pairs of
    /// distinct items, `fresh_bin` for the bin; every weight 1.0.
    pub fn register_layout(fresh: &PairMatrix, fresh_bin: &Vec<u32>) -> (r: OverlapTracker)
        requires
            fresh.wf(),
            fresh_bin@.len() == fresh.n,
        ensures
            r.wf(),
            r.n == fresh.n,
            forall|a: int, b: int|
                0 <= a < r.n && 0 <= b < r.n && a != b ==> #[trigger] r.pair_overlap.at(a, b) == fresh.at(a, b),
            r.bin_overlap@ == fresh_bin@,
            forall|a: int, b: int| 0 <= a < r.n && 0 <= b < r.n ==> #[trigger] r.pair_weight.at(a, b) == WEIGHT_UNIT,
            forall|a: int| 0 <= a < r.n ==> #[trigger] r.bin_weight@[a] == WEIGHT_UNIT,
    {
        let n = fresh.n;
        let mut t = OverlapTracker::new(n);
        let mut b: usize = 0;
        while b < n
            invariant
                t.wf(),
                fresh.wf(),
                t.n == n,
                fresh.n == n,
                b <= n,
                forall|x: int, y: int|
                    0 <= x < b && 0 <= y < b && x != y ==> #[trigger] t.pair_overlap.at(x, y) == fresh.at(x, y),
                forall|x: int, y: int| 0 <= x < n && 0 <= y < n ==> #[trigger] t.pair_weight.at(x, y) == WEIGHT_UNIT,
                forall|x: int| 0 <= x < n ==> #[trigger] t.bin_weight@[x] == WEIGHT_UNIT,
                t.bin_overlap@.len() == n,
            decreases n - b,
        {
            let mut a: usize = 0;
            while a < b
                invariant
                    t.wf(),
                    fresh.wf(),
                    t.n == n,
                    fresh.n == n,
                    b < n,
                    a <= b,
                    forall|x: int, y: int|
                        0 <= x < b && 0 <= y < b && x != y ==> #[trigger] t.pair_overlap.at(x, y) == fresh.at(x, y),
                    forall|x: int| 0 <= x < a ==> #[trigger] t.pair_overlap.at(x, b as int) == fresh.at(x, b as int),
                    forall|x: int, y: int| 0 <= x < n && 0 <= y < n ==> #[trigger] t.pair_weight.at(x, y) == WEIGHT_UNIT,
                    forall|x: int| 0 <= x < n ==> #[trigger] t.bin_weight@[x] == WEIGHT_UNIT,
                    t.bin_overlap@.len() == n,
                decreases b - a,
            {
                let v = fresh.get(a, b);
                t.set_pair_overlap(a, b, v);
                a = a + 1;
            }
            proof {
                assert forall|x: int, y: int|
                    0 <= x < b + 1 && 0 <= y < b + 1 && x != y implies #[trigger] t.pair_overlap.at(x, y) == fresh.at(x, y) by {
                    if y == b {
                        assert(t.pair_overlap.at(x, y) == t.pair_overlap.at(x, b as int));
                    } else if x == b {
                        assert(t.pair_overlap.at(x, y) == t.pair_overlap.at(y, b as int));
                        assert(fresh.at(x, y) == fresh.at(y, b as int));
                    }
                }
            }
            b = b + 1;
        }
        let mut a: usize = 0;
        while a < n
            invariant
                t.wf(),
                t.n == n,
                fresh_bin@.len() == n,
                a <= n,
                forall|x: int, y: int|
                    0 <= x < n && 0 <= y < n && x != y ==> #[trigger] t.pair_overlap.at(x, y) == fresh.at(x, y),
                forall|x: int, y: int| 0 <= x < n && 0 <= y < n ==> #[trigger] t.pair_weight.at(x, y) == WEIGHT_UNIT,
                forall|x: int| 0 <= x < n ==> #[trigger] t.bin_weight@[x] == WEIGHT_UNIT,
                t.bin_overlap@.len() == n,
                forall|x: int| 0 <= x < a ==> #[trigger] t.bin_overlap@[x] == fresh_bin@[x],
            decreases n - a,
        {
            t.set_bin_overlap(a, fresh_bin[a]);
            a = a + 1;
        }
        assert(t.bin_overlap@ =~= fresh_bin@);
        t
    }

    pub fn get_pair_overlap(&self, a: usize, b: usize) -> (r: u32)
        requires
            self.wf(),
            a < self.n,
            b < self.n,
        ensures
            r == self.pair_overlap.at(a as int, b as int),
    {
        self.pair_overlap.get(a, b)
    }

    pub fn get_pair_weight(&self, a: usize, b: usize) -> (r: u32)
        requires
            self.wf(),
            a < self.n,
            b < self.n,
        ensures
            r == self.pair_weight.at(a as int, b as int),
    {
        self.pair_weight.get(a, b)
    }

    pub fn get_bin_overlap(&self, a: usize) -> (r: u32)
        requires
            self.wf(),
            a < self.n,
        ensures
            r == self.bin_overlap@[a as int],
    {
        self.bin_overlap[a]
    }

    pub fn get_bin_weight(&self, a: usize) -> (r: u32)
        requires
            self.wf(),
            a < self.n,
        ensures
            r == self.bin_weight@[a as int],
    {
        self.bin_weight[a]
    }

    /// Records the overlap between two distinct items.
    pub fn set_pair_overlap(&mut self, a: usize, b: usize, overlap: u32)
        requires
            old(self).wf(),
            a < old(self).n,
            b < old(self).n,
            a != b,
        ensures
            final(self).wf(),
            final(self).n == old(self).n,
            final(self).pair_overlap.at(a as int, b as int) == overlap,
            forall|x: int, y: int|
                0 <= x < old(self).n && 0 <= y < old(self).n && !((x == a && y == b) || (x == b && y
                    == a)) ==> #[trigger] final(self).pair_overlap.at(x, y) == old(self).pair_overlap.at(x, y),
            final(self).pair_weight == old(self).pair_weight,
            final(self).bin_overlap == old(self).bin_overlap,
            final(self).bin_weight == old(self).bin_weight,
    {
        self.pair_overlap.set(a, b, overlap);
        assert(forall|x: int| 0 <= x < self.n ==> #[trigger] self.pair_overlap.at(x, x) == old(self).pair_overlap.at(x, x));
    }

    /// Records the overlap between an item and the bin's exterior.
    pub fn set_bin_overlap(&mut self, a: usize, overlap: u32)
        requires
            old(self).wf(),
            a < old(self).n,
        ensures
            final(self).wf(),
            final(self).n == old(self).n,
            final(self).bin_overlap@ == old(self).bin_overlap@.update(a as int, overlap),
            final(self).pair_overlap == old(self).pair_overlap,
            final(self).pair_weight == old(self).pair_weight,
            final(self).bin_weight == old(self).bin_weight,
    {
        self.bin_overlap.set(a, overlap);
    }

    /// Replaces every overlap of item `i`: `overlaps[j]` against item `j` (the entry at
    /// `i` itself is ignored) and `bin_overlap` against the bin. Nothing else changes.
    pub fn move_item(&mut self, i: usize, overlaps: &Vec<u32>, bin_overlap: u32)
        requires
            old(self).wf(),
            i < old(self).n,
            overlaps@.len() == old(self).n,
        ensures
            final(self).wf(),
            final(self).is_move_of(*old(self), i as int, overlaps@, bin_overlap),
    {
        let n = self.n;
        let mut j: usize = 0;
        while j < n
            invariant
                self.wf(),
                self.n == n,
                n == old(self).n,
                i < n,
                overlaps@.len() == n,
                j <= n,
                forall|k: int| 0 <= k < j && k != i ==> #[trigger] self.pair_overlap.at(i as int, k) == overlaps@[k],
                forall|x: int, y: int|
                    0 <= x < n && 0 <= y < n && x != i && y != i ==> #[trigger] self.pair_overlap.at(x, y)
                        == old(self).pair_overlap.at(x, y),
                self.bin_overlap == old(self).bin_overlap,
                self.pair_weight == old(self).pair_weight,
                self.bin_weight == old(self).bin_weight,
            decreases n - j,
        {
            if j != i {
                self.set_pair_overlap(i, j, overlaps[j]);
                assert(forall|k: int| 0 <= k < j && k != i ==> #[trigger] self.pair_overlap.at(i as int, k) == overlaps@[k]);
            }
            j = j + 1;
        }
        self.set_bin_overlap(i, bin_overlap);
    }

    /// Weighted overlap of item `a`: its overlaps times their weights, against every
    /// other item and against the bin.
    pub fn get_weighted_overlap(&self, a: usize) -> (r: u128)
        requires
            self.wf(),
            a < self.n,
        ensures
            r == self.weighted_overlap_of(a as int),
            r <= (self.n + 1) * 0x1_0000_0000_0000_0000,
    {
        let n = self.n;
        let mut acc: u128 = 0;
        let mut j: usize = 0;
        while j < n
            invariant
                self.wf(),
                n == self.n,
                a < n,
                j <= n,
                acc == self.row_dot(a as int, j as int),
                acc <= j * 0x1_0000_0000_0000_0000,
            decreases n - j,
        {
            let term = product(self.pair_overlap.get(a, j), self.pair_weight.get(a, j));
            acc = acc + term as u128;
            j = j + 1;
        }
        let b = product(self.bin_overlap[a], self.bin_weight[a]);
        acc + b as u128
    }

    /// Weighted overlap of the whole layout.
    pub fn get_overall_weighted_overlap(&self) -> (r: u128)
        requires
            self.wf(),
        ensures
            r == self.overall_weighted(),
    {
        assert(forall|k: int| 0 <= k < self.bin_weight@.len() ==> #[trigger] self.bin_weight@[k] <= WEIGHT_CAP);
        assert(forall|k: int| 0 <= k < self.pair_weight.data@.len() ==> #[trigger] self.pair_weight.data@[k] <= WEIGHT_CAP);
        let p = sum_of_products(&self.pair_overlap.data, &self.pair_weight.data);
        let b = sum_of_products(&self.bin_overlap, &self.bin_weight);
        p + b
    }

    /// Raises the weights of overlapping items. Each item's ratio lies between 1.2 and
    /// 2.0 and grows with its weighted overlap relative to the largest one; the weight
    /// of an overlapping pair is multiplied once, by the larger ratio of its two items,
    /// and an item's bin weight by its own ratio when it overlaps the bin. Other weights
    /// and all overlaps stay as they are.
    pub fn increment_weights(&mut self)
        requires
            old(self).wf(),
        ensures
            final(self).wf(),
            final(self).n == old(self).n,
            final(self).pair_overlap == old(self).pair_overlap,
            final(self).bin_overlap == old(self).bin_overlap,
            forall|a: int, b: int|
                0 <= a < old(self).n && 0 <= b < old(self).n ==> #[trigger] final(self).pair_weight.at(a, b)
                    == old(self).pair_weight_after_increment(a, b),
            forall|a: int| 0 <= a < old(self).n ==> #[trigger] final(self).bin_weight@[a] == old(self).bin_weight_after_increment(a),
            forall|a: int, b: int| 0 <= a < old(self).n && 0 <= b < old(self).n ==> #[trigger] final(self).pair_weight.at(a, b) >= old(self).pair_weight.at(a, b),
            forall|a: int| 0 <= a < old(self).n ==> #[trigger] final(self).bin_weight@[a] >= old(self).bin_weight@[a],
            forall|a: int, b: int|
                0 <= a < old(self).n && 0 <= b < old(self).n && old(self).pair_overlap.at(a, b) > 0 ==> #[trigger] final(self).pair_weight.at(a, b)
                    == WEIGHT_CAP || final(self).pair_weight.at(a, b) >= old(self).pair_weight.at(a, b) * WEIGHT_MIN_INC_RATIO / 1000,
    {
        let ghost prev = *self;
        let wo = self.weighted_overlaps();
        let n = self.n;
        let mut mx: u128 = 0;
        let mut i: usize = 0;
        while i < n
            invariant
                n == prev.n,
                wo@.len() == n,
                forall|k: int| 0 <= k < n ==> #[trigger] wo@[k] == prev.weighted_overlap_of(k),
                forall|k: int| 0 <= k < n ==> #[trigger] wo@[k] <= 0x4_0000_0000_0000_0000_0000_0000,
                i <= n,
                mx == prev.max_weighted_upto(i as int),
                mx <= 0x4_0000_0000_0000_0000_0000_0000,
                forall|k: int| 0 <= k < i ==> #[trigger] wo@[k] <= mx,
            decreases n - i,
        {
            if wo[i] > mx {
                mx = wo[i];
            }
            i = i + 1;
        }
        let mut b: usize = 0;
        while b < n
            invariant
                self.wf(),
                prev.wf(),
                self.n == n,
                n == prev.n,
                self.pair_overlap == prev.pair_overlap,
                self.bin_overlap == prev.bin_overlap,
                self.bin_weight == prev.bin_weight,
                self.pair_weight.n == n,
                wo@.len() == n,
                forall|k: int| 0 <= k < n ==> #[trigger] wo@[k] == prev.weighted_overlap_of(k),
                forall|k: int| 0 <= k < n ==> #[trigger] wo@[k] <= mx,
                mx == prev.max_weighted_upto(n as int),
                mx <= 0x4_0000_0000_0000_0000_0000_0000,
                b <= n,
                forall|x: int, y: int|
                    0 <= x < n && 0 <= y < n ==> #[trigger] self.pair_weight.at(x, y) == if x < b && y < b {
                        prev.pair_weight_after_increment(x, y)
                    } else {
                        prev.pair_weight.at(x, y)
                    },
            decreases n - b,
        {
            let mut a: usize = 0;
            while a <= b
                invariant
                    self.wf(),
                    prev.wf(),
                    self.n == n,
                    n == prev.n,
                    self.pair_overlap == prev.pair_overlap,
                    self.bin_overlap == prev.bin_overlap,
                    self.bin_weight == prev.bin_weight,
                    self.pair_weight.n == n,
                    wo@.len() == n,
                    forall|k: int| 0 <= k < n ==> #[trigger] wo@[k] == prev.weighted_overlap_of(k),
                    forall|k: int| 0 <= k < n ==> #[trigger] wo@[k] <= mx,
                    mx == prev.max_weighted_upto(n as int),
                    mx <= 0x4_0000_0000_0000_0000_0000_0000,
                    b < n,
                    a <= b + 1,
                    forall|x: int, y: int|
                        0 <= x < n && 0 <= y < n ==> #[trigger] self.pair_weight.at(x, y) == if (x < b && y < b) || (
                        x == b && y < a) || (y == b && x < a) {
                            prev.pair_weight_after_increment(x, y)
                        } else {
                            prev.pair_weight.at(x, y)
                        },
                decreases b + 1 - a,
            {
                let o = self.pair_overlap.get(a, b);
                if o > 0 {
                    let m = if wo[a] >= wo[b] { wo[a] } else { wo[b] };
                    let ratio = ratio_exec(m, mx);
                    proof {
                        self.pair_weight.lemma_at_bounded(a as int, b as int);
                    }
                    let w = increment_weight(self.pair_weight.get(a, b), ratio);
                    self.pair_weight.set(a, b, w);
                }
                a = a + 1;
            }
            b = b + 1;
        }
        let mut a: usize = 0;
        while a < n
            invariant
                self.wf(),
                self.n == n,
                n == prev.n,
                self.pair_overlap == prev.pair_overlap,
                self.bin_overlap == prev.bin_overlap,
                self.pair_weight.n == n,
                wo@.len() == n,
                forall|k: int| 0 <= k < n ==> #[trigger] wo@[k] == prev.weighted_overlap_of(k),
                forall|k: int| 0 <= k < n ==> #[trigger] wo@[k] <= mx,
                mx == prev.max_weighted_upto(n as int),
                mx <= 0x4_0000_0000_0000_0000_0000_0000,
                forall|x: int, y: int|
                    0 <= x < n && 0 <= y < n ==> #[trigger] self.pair_weight.at(x, y) == prev.pair_weight_after_increment(x, y),
                a <= n,
                forall|q: int| 0 <= q < n ==> #[trigger] self.bin_weight@[q] == if q < a {
                    prev.bin_weight_after_increment(q)
                } else {
                    prev.bin_weight@[q]
                },
            decreases n - a,
        {
            if self.bin_overlap[a] > 0 {
                let ratio = ratio_exec(wo[a], mx);
                let w = increment_weight(self.bin_weight[a], ratio);
                self.bin_weight.set(a, w);
            }
            a = a + 1;
        }
        proof {
            assert forall|x: int, y: int| 0 <= x < n && 0 <= y < n implies #[trigger] self.pair_weight.at(x, y) >= prev.pair_weight.at(x, y) && (prev.pair_overlap.at(x, y) > 0 ==> self.pair_weight.at(x, y) == WEIGHT_CAP || self.pair_weight.at(x, y) >= prev.pair_weight.at(x, y) * WEIGHT_MIN_INC_RATIO / 1000) by {
                prev.pair_weight.lemma_at_bounded(x, y);
                if prev.pair_overlap.at(x, y) > 0 {
                    assert(wo@[x] == prev.weighted_overlap_of(x) && wo@[y] == prev.weighted_overlap_of(y));
                    lemma_incremented_grows(prev.pair_weight.at(x, y) as int, prev.pair_ratio(x, y));
                }
            }
            assert forall|x: int| 0 <= x < n implies #[trigger] self.bin_weight@[x] >= prev.bin_weight@[x] by {
                if prev.bin_overlap@[x] > 0 {
                    assert(wo@[x] == prev.weighted_overlap_of(x));
                    lemma_incremented_grows(prev.bin_weight@[x] as int, prev.item_ratio(x));
                }
            }
        }
    }

    /// Weighted overlap of every item, by index.
    pub fn weighted_overlaps(&self) -> (r: Vec<u128>)
        requires
            self.wf(),
        ensures
            r@.len() == self.n,
            forall|k: int| 0 <= k < self.n ==> #[trigger] r@[k] == self.weighted_overlap_of(k),
            forall|k: int| 0 <= k < self.n ==> #[trigger] r@[k] <= 0x4_0000_0000_0000_0000_0000_0000,
    {
        proof {
            lemma_items_bounded(self.n as int);
        }
        let mut r: Vec<u128> = Vec::new();
        let mut i: usize = 0;
        while i < self.n
            invariant
                self.wf(),
                self.n < 0x2_0000_0000,
                i <= self.n,
                r@.len() == i,
                forall|k: int| 0 <= k < i ==> #[trigger] r@[k] == self.weighted_overlap_of(k),
                forall|k: int| 0 <= k < i ==> #[trigger] r@[k] <= 0x4_0000_0000_0000_0000_0000_0000,
            decreases self.n - i,
        {
            let w = self.get_weighted_overlap(i);
            r.push(w);
            i = i + 1;
        }
        r
    }

    /// Multiplies every weight by the decay factor, never going below 1.0.
    pub fn decay_weights(&mut self)
        requires
            old(self).wf(),
        ensures
            final(self).wf(),
            final(self).n == old(self).n,
            final(self).pair_overlap == old(self).pair_overlap,
            final(self).bin_overlap == old(self).bin_overlap,
            final(self).pair_weight.data@.len() == old(self).pair_weight.data@.len(),
            forall|k: int| 0 <= k < old(self).pair_weight.data@.len() ==> #[trigger] final(self).pair_weight.data@[k] == decayed(old(self).pair_weight.data@[k] as int),
            forall|a: int| 0 <= a < old(self).n ==> #[trigger] final(self).bin_weight@[a] == decayed(old(self).bin_weight@[a] as int),
            forall|a: int, b: int| 0 <= a < old(self).n && 0 <= b < old(self).n ==> WEIGHT_UNIT <= #[trigger] final(self).pair_weight.at(a, b) <= old(self).pair_weight.at(a, b),
            forall|a: int| 0 <= a < old(self).n ==> WEIGHT_UNIT <= #[trigger] final(self).bin_weight@[a] <= old(self).bin_weight@[a],
    {
        let len = self.pair_weight.data.len();
        let mut k: usize = 0;
        while k < len
            invariant
                self.wf(),
                self.n == old(self).n,
                self.pair_overlap == old(self).pair_overlap,
                self.bin_overlap == old(self).bin_overlap,
                self.bin_weight == old(self).bin_weight,
                len == self.pair_weight.data@.len(),
                len == old(self).pair_weight.data@.len(),
                self.pair_weight.n == old(self).pair_weight.n,
                k <= len,
                forall|q: int| 0 <= q < k ==> #[trigger] self.pair_weight.data@[q] == decayed(old(self).pair_weight.data@[q] as int),
                forall|q: int| k <= q < len ==> #[trigger] self.pair_weight.data@[q] == old(self).pair_weight.data@[q],
                forall|q: int| 0 <= q < len ==> WEIGHT_UNIT <= #[trigger] self.pair_weight.data@[q] <= old(self).pair_weight.data@[q],
            decreases len - k,
        {
            let w = decay_weight(self.pair_weight.data[k]);
            self.pair_weight.data.set(k, w);
            k = k + 1;
        }
        let n = self.n;
        let mut a: usize = 0;
        while a < n
            invariant
                self.wf(),
                self.n == n,
                n == old(self).n,
                self.pair_overlap == old(self).pair_overlap,
                self.bin_overlap == old(self).bin_overlap,
                self.pair_weight.data@.len() == old(self).pair_weight.data@.len(),
                self.pair_weight.n == old(self).pair_weight.n,
                forall|q: int| 0 <= q < self.pair_weight.data@.len() ==> #[trigger] self.pair_weight.data@[q] == decayed(old(self).pair_weight.data@[q] as int),
                a <= n,
                forall|q: int| 0 <= q < a ==> #[trigger] self.bin_weight@[q] == decayed(old(self).bin_weight@[q] as int),
                forall|q: int| a <= q < n ==> #[trigger] self.bin_weight@[q] == old(self).bin_weight@[q],
                forall|q: int| 0 <= q < self.pair_weight.data@.len() ==> WEIGHT_UNIT <= #[trigger] self.pair_weight.data@[q] <= old(self).pair_weight.data@[q],
                forall|q: int| 0 <= q < n ==> WEIGHT_UNIT <= #[trigger] self.bin_weight@[q] <= old(self).bin_weight@[q],
            decreases n - a,
        {
            let w = decay_weight(self.bin_weight[a]);
            self.bin_weight.set(a, w);
            a = a + 1;
        }
        proof {
            assert forall|x: int, y: int| 0 <= x < n && 0 <= y < n implies WEIGHT_UNIT <= #[trigger] self.pair_weight.at(x, y) <= old(self).pair_weight.at(x, y) by {
                lemma_flat_index_bounds(x, y, n as int);
            }
        }
    }

    /// Every stored overlap agrees with a fresh computation. `detected[a][b]` tells
    /// whether collision detection reports item `b` against item `a`; `fresh` holds the
    /// recomputed pair proxies and `fresh_bin` the bin proxies, reported where
    /// `bin_detected` says so.
    pub open spec fn agrees_with(
        &self,
        detected: Seq<Seq<bool>>,
        fresh: PairMatrix,
        bin_detected: Seq<bool>,
        fresh_bin: Seq<u32>,
    ) -> bool {
        &&& forall|a: int, b: int|
            0 <= a < self.n && 0 <= b < self.n && a != b ==> pair_consistent(
                #[trigger] self.pair_overlap.at(a, b),
                fresh.at(a, b),
                detected[a][b],
                detected[b][a],
            )
        &&& forall|a: int|
            0 <= a < self.n ==> #[trigger] self.bin_overlap@[a] == if bin_detected[a] {
                fresh_bin[a]
            } else {
                0
            }
    }

    /// Checks the stored overlaps against freshly computed ones.
    pub fn matches_fresh(
        &self,
        detected: &Vec<Vec<bool>>,
        fresh: &PairMatrix,
        bin_detected: &Vec<bool>,
        fresh_bin: &Vec<u32>,
    ) -> (r: bool)
        requires
            self.wf(),
            fresh.wf(),
            fresh.n == self.n,
            detected@.len() == self.n,
            forall|a: int| 0 <= a < self.n ==> (#[trigger] detected@[a])@.len() == self.n,
            bin_detected@.len() == self.n,
            fresh_bin@.len() == self.n,
        ensures
            r == self.agrees_with(detected@.map_values(|row: Vec<bool>| row@), *fresh, bin_detected@, fresh_bin@),
    {
        let ghost d = detected@.map_values(|row: Vec<bool>| row@);
        let n = self.n;
        let mut a: usize = 0;
        while a < n
            invariant
                self.wf(),
                fresh.wf(),
                fresh.n == n,
                n == self.n,
                a <= n,
                detected@.len() == n,
                forall|x: int| 0 <= x < n ==> (#[trigger] detected@[x])@.len() == n,
                d == detected@.map_values(|row: Vec<bool>| row@),
                forall|x: int, y: int|
                    0 <= x < a && 0 <= y < n && x != y ==> pair_consistent(
                        #[trigger] self.pair_overlap.at(x, y),
                        fresh.at(x, y),
                        d[x][y],
                        d[y][x],
                    ),
            decreases n - a,
        {
            let mut b: usize = 0;
            while b < n
                invariant
                    self.wf(),
                    fresh.wf(),
                    fresh.n == n,
                    n == self.n,
                    a < n,
                    b <= n,
                    detected@.len() == n,
                    forall|x: int| 0 <= x < n ==> (#[trigger] detected@[x])@.len() == n,
                    d == detected@.map_values(|row: Vec<bool>| row@),
                    forall|x: int, y: int|
                        0 <= x < a && 0 <= y < n && x != y ==> pair_consistent(
                            #[trigger] self.pair_overlap.at(x, y),
                            fresh.at(x, y),
                            d[x][y],
                            d[y][x],
                        ),
                    forall|y: int|
                        0 <= y < b && a != y ==> pair_consistent(
                            #[trigger] self.pair_overlap.at(a as int, y),
                            fresh.at(a as int, y),
                            d[a as int][y],
                            d[y][a as int],
                        ),
                decreases n - b,
            {
                if a != b {
                    let seen = detected[a][b];
                    let seen_back = detected[b][a];
                    let ok = pair_consistent_exec(self.pair_overlap.get(a, b), fresh.get(a, b), seen, seen_back);
                    if !ok {
                        return false;
                    }
                }
                b = b + 1;
            }
            a = a + 1;
        }
        let mut a: usize = 0;
        while a < n
            invariant
                self.wf(),
                n == self.n,
                bin_detected@.len() == n,
                fresh_bin@.len() == n,
                a <= n,
                forall|x: int|
                    0 <= x < a ==> #[trigger] self.bin_overlap@[x] == if bin_detected@[x] {
                        fresh_bin@[x]
                    } else {
                        0
                    },
            decreases n - a,
        {
            let expected: u32 = if bin_detected[a] { fresh_bin[a] } else { 0 };
            if self.bin_overlap[a] != expected {
                return false;
            }
            a = a + 1;
        }
        true
    }

    /// Whether no overlap remains, neither between items nor with the bin.
    pub fn is_feasible(&self) -> (r: bool)
        requires
            self.wf(),
        ensures
            r == ((forall|a: int, b: int| 0 <= a < self.n && 0 <= b < self.n ==> #[trigger] self.pair_overlap.at(a, b) == 0)
                && (forall|a: int| 0 <= a < self.n ==> #[trigger] self.bin_overlap@[a] == 0)),
    {
        let len = self.pair_overlap.data.len();
        let mut k: usize = 0;
        while k < len
            invariant
                self.wf(),
                len == self.pair_overlap.data@.len(),
                k <= len,
                forall|q: int| 0 <= q < k ==> #[trigger] self.pair_overlap.data@[q] == 0,
            decreases len - k,
        {
            if self.pair_overlap.data[k] != 0 {
                proof {
                    lemma_flat_index_onto(k as int, self.n as int);
                    let (a, b) = choose|a: int, b: int| 0 <= a <= b < self.n && flat_index(a, b) == k;
                    assert(self.pair_overlap.at(a, b) != 0);
                }
                return false;
            }
            k = k + 1;
        }
        proof {
            assert forall|a: int, b: int| 0 <= a < self.n && 0 <= b < self.n implies #[trigger] self.pair_overlap.at(a, b) == 0 by {
                lemma_flat_index_bounds(a, b, self.n as int);
            }
        }
        let mut a: usize = 0;
        while a < self.n
            invariant
                self.wf(),
                a <= self.n,
                forall|q: int| 0 <= q < a ==> #[trigger] self.bin_overlap@[q] == 0,
            decreases self.n - a,
        {
            if self.bin_overlap[a] != 0 {
                return false;
            }
            a = a + 1;
        }
        true
    }
}

/// Increment ratio for weighted overlap `m` of at most `mx`.
fn ratio_exec(m: u128, mx: u128) -> (r: u64)
    requires
        m <= mx,
        mx <= 0x4_0000_0000_0000_0000_0000_0000,
    ensures
        r == ratio_for(m as int, mx as int),
        WEIGHT_MIN_INC_RATIO <= r <= WEIGHT_MAX_INC_RATIO,
{
    if mx == 0 {
        return WEIGHT_MIN_INC_RATIO;
    }
    proof {
        let (mi, xi) = (m as int, mx as int);
        vstd::arithmetic::div_mod::lemma_div_is_ordered(800 * mi, 800 * xi, xi);
        vstd::arithmetic::div_mod::lemma_div_multiples_vanish(800, xi);
        assert(800 * xi == xi * 800);
        vstd::arithmetic::div_mod::lemma_div_is_ordered(0, 800 * mi, xi);
    }
    let span: u128 = (WEIGHT_MAX_INC_RATIO - WEIGHT_MIN_INC_RATIO) as u128;
    let off: u128 = span * m / mx;
    WEIGHT_MIN_INC_RATIO + off as u64
}

/// `w` multiplied by `ratio` thousandths, capped.
pub fn increment_weight(w: u32, ratio: u64) -> (r: u32)
    requires
        weight_ok(w),
        WEIGHT_MIN_INC_RATIO <= ratio <= WEIGHT_MAX_INC_RATIO,
    ensures
        r == incremented(w as int, ratio as int),
        weight_ok(r),
        r >= w,
{
    proof {
        let ri = ratio as int;
        let wi = w as int;
        assert(wi * ri <= 0xffff_ffff * 2000) by (nonlinear_arith)
            requires
                0 <= wi <= 0xffff_ffff,
                0 <= ri <= 2000,
        ;
        assert(wi * ri >= wi * 1200) by (nonlinear_arith)
            requires
                ri >= 1200,
                wi >= 0,
        ;
    }
    let v: u64 = (w as u64) * ratio / 1000;
    if v > WEIGHT_CAP as u64 {
        WEIGHT_CAP
    } else {
        v as u32
    }
}

/// An increment never lowers a weight, and raises it by at least the smallest ratio
/// unless the cap is reached.
pub proof fn lemma_incremented_grows(w: int, ratio: int)
    requires
        WEIGHT_UNIT <= w <= WEIGHT_CAP,
        ratio >= WEIGHT_MIN_INC_RATIO,
    ensures
        incremented(w, ratio) >= w,
        incremented(w, ratio) == WEIGHT_CAP || incremented(w, ratio) >= w * WEIGHT_MIN_INC_RATIO / 1000,
{
    assert(w * ratio >= w * 1200) by (nonlinear_arith)
        requires
            ratio >= 1200,
            w >= 0,
    ;
    vstd::arithmetic::div_mod::lemma_div_is_ordered(w * 1200, w * ratio, 1000);
}

/// A tracker's storage bounds its item count.
pub proof fn lemma_items_bounded(n: int)
    requires
        0 <= n,
        tri(n) <= usize::MAX,
    ensures
        n < 0x2_0000_0000,
{
    crate::pair_matrix::lemma_tri_closed(n);
    assert(usize::MAX <= 0xffff_ffff_ffff_ffff);
    assert(n < 0x2_0000_0000) by (nonlinear_arith)
        requires
            n * (n + 1) <= 2 * 0xffff_ffff_ffff_ffff,
            n >= 0,
    ;
}

/// `w` after one decay.
pub fn decay_weight(w: u32) -> (r: u32)
    requires
        weight_ok(w),
    ensures
        r == decayed(w as int),
        weight_ok(r),
        r <= w,
{
    let v: u64 = (w as u64) * WEIGHT_DECAY / 1000;
    if v < WEIGHT_UNIT as u64 {
        WEIGHT_UNIT
    } else {
        v as u32
    }
}

/// `fresh` is within a thousandth of `stored`, relative to `stored`.
pub open spec fn approx_eq(stored: u32, fresh: u32) -> bool {
    let d = if stored >= fresh { stored - fresh } else { fresh - stored };
    d * 1000 <= stored
}

/// A stored pair overlap is consistent with detection: within a thousandth of the fresh
/// proxy when both directions report the collision, zero when neither does, and
/// trusted as stored when only one direction reports it.
pub open spec fn pair_consistent(stored: u32, fresh: u32, seen: bool, seen_back: bool) -> bool {
    if seen && seen_back {
        approx_eq(stored, fresh)
    } else if !seen && !seen_back {
        stored == 0
    } else {
        true
    }
}

fn pair_consistent_exec(stored: u32, fresh: u32, seen: bool, seen_back: bool) -> (r: bool)
    ensures
        r == pair_consistent(stored, fresh, seen, seen_back),
{
    if seen && seen_back {
        approx_eq_exec(stored, fresh)
    } else if !seen && !seen_back {
        stored == 0
    } else {
        true
    }
}

fn approx_eq_exec(stored: u32, fresh: u32) -> (r: bool)
    ensures
        r == approx_eq(stored, fresh),
{
    let d: u64 = if stored >= fresh { (stored - fresh) as u64 } else { (fresh - stored) as u64 };
    d * 1000 <= stored as u64
}

/// `o * w` without loss.
pub fn product(o: u32, w: u32) -> (r: u64)
    ensures
        r == o * w,
{
    proof {
        assert(o * w <= 0xffff_ffff * 0xffff_ffff) by (nonlinear_arith)
            requires
                o <= 0xffff_ffff,
                w <= 0xffff_ffff,
        ;
    }
    (o as u64) * (w as u64)
}

/// Sum of `o[k] * w[k]` over all positions.
pub fn sum_of_products(o: &Vec<u32>, w: &Vec<u32>) -> (r: u128)
    requires
        o@.len() == w@.len(),
        forall|k: int| 0 <= k < w@.len() ==> #[trigger] w@[k] <= WEIGHT_CAP,
    ensures
        r == dot(o@, w@, o@.len() as int),
        r <= o@.len() * 0x8000_0000_0000_0000,
{
    let len = o.len();
    let mut acc: u128 = 0;
    let mut k: usize = 0;
    while k < len
        invariant
            len == o@.len(),
            o@.len() == w@.len(),
            k <= len,
            forall|q: int| 0 <= q < w@.len() ==> #[trigger] w@[q] <= WEIGHT_CAP,
            acc == dot(o@, w@, k as int),
            acc <= k * 0x8000_0000_0000_0000,
        decreases len - k,
    {
        let term = product(o[k], w[k]);
        proof {
            let (x, y) = (o@[k as int], w@[k as int]);
            assert(x * y <= 0xffff_ffff * 2_000_000_000) by (nonlinear_arith)
                requires
                    x <= 0xffff_ffff,
                    y <= 2_000_000_000,
            ;
        }
        acc = acc + term as u128;
        k = k + 1;
    }
    acc
}

/// Every position of triangular storage for `n` rows belongs to some pair below `n`.
pub proof fn lemma_flat_index_onto(k: int, n: int)
    requires
        0 <= k < tri(n),
    ensures
        exists|a: int, b: int| 0 <= a <= b < n && flat_index(a, b) == k,
    decreases n,
{
    if k >= tri(n - 1) {
        assert(flat_index(k - tri(n - 1), n - 1) == k);
    } else {
        lemma_flat_index_onto(k, n - 1);
        let (a, b) = choose|a: int, b: int| 0 <= a <= b < n - 1 && flat_index(a, b) == k;
        assert(0 <= a <= b < n && flat_index(a, b) == k);
    }
}

/// The overlap stored for a pair is the same whichever way round the pair is named.
pub proof fn lemma_pair_overlap_symmetric(t: OverlapTracker, a: int, b: int)
    ensures
        t.pair_overlap.at(a, b) == t.pair_overlap.at(b, a),
        t.pair_weight.at(a, b) == t.pair_weight.at(b, a),
{
}

/// No item overlaps itself.
pub proof fn lemma_self_overlap_zero(t: OverlapTracker, a: int)
    requires
        t.wf(),
        0 <= a < t.n,
    ensures
        t.pair_overlap.at(a, a) == 0,
{
}

/// Moving an item keeps the tracker in step with freshly computed overlaps: if every
/// stored pair overlap matched the overlaps before the move, the move changes only
/// pairs involving the moved item, and it is handed their fresh values, then every
/// stored pair overlap matches the overlaps after the move.
pub proof fn lemma_move_keeps_fresh(
    prev: OverlapTracker,
    next: OverlapTracker,
    i: int,
    overlaps: Seq<u32>,
    bin_overlap: u32,
    fresh_before: spec_fn(int, int) -> u32,
    fresh_after: spec_fn(int, int) -> u32,
)
    requires
        prev.wf(),
        0 <= i < prev.n,
        prev.pairs_match(fresh_before),
        forall|a: int, b: int| #[trigger] fresh_after(a, b) == fresh_after(b, a),
        forall|a: int, b: int| a != i && b != i ==> #[trigger] fresh_after(a, b) == fresh_before(a, b),
        forall|j: int| 0 <= j < prev.n && j != i ==> overlaps[j] == #[trigger] fresh_after(i, j),
        next.is_move_of(prev, i, overlaps, bin_overlap),
    ensures
        next.pairs_match(fresh_after),
{
    assert forall|a: int, b: int| 0 <= a < next.n && 0 <= b < next.n && a != b implies #[trigger] next.pair_overlap.at(a, b) == fresh_after(a, b) by {
        if a == i {
            assert(next.pair_overlap.at(i, b) == overlaps[b]);
        } else if b == i {
            assert(next.pair_overlap.at(i, a) == overlaps[a]);
            assert(fresh_after(i, a) == fresh_after(a, i));
        } else {
            assert(fresh_before(a, b) == fresh_after(a, b));
        }
    }
}

} // verus!
