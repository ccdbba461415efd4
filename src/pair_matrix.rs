use vstd::prelude::*;

verus! {

/// Number of entries in the first `b` rows of a lower-triangular matrix
/// (row `r` holds `r + 1` entries).
pub open spec fn tri(b: int) -> int
    decreases b,
{
    if b <= 0 {
        0
    } else {
        tri(b - 1) + b
    }
}

/// Position of the unordered pair `{i, j}` in triangular storage.
pub open spec fn flat_index(i: int, j: int) -> int {
    if i <= j {
        tri(j) + i
    } else {
        tri(i) + j
    }
}

pub proof fn lemma_tri_closed(b: int)
    requires
        b >= 0,
    ensures
        2 * tri(b) == b * (b + 1),
    decreases b,
{
    if b > 0 {
        lemma_tri_closed(b - 1);
        let t = tri(b - 1);
        assert(tri(b) == t + b);
        assert(2 * (t + b) == b * (b + 1)) by (nonlinear_arith)
            requires
                2 * t == (b - 1) * ((b - 1) + 1),
        ;
    } else {
        assert(b * (b + 1) == 0) by (nonlinear_arith)
            requires
                b == 0,
        ;
    }
}

/// The last entry of row `j` lies before the first entry of any later row.
pub proof fn lemma_tri_rows(j: int, l: int)
    requires
        0 <= j < l,
    ensures
        tri(j) + j < tri(l),
    decreases l - j,
{
    if l > j + 1 {
        lemma_tri_rows(j, l - 1);
    }
}

/// Every pair of indices below `n` has a position inside storage for `n` rows.
pub proof fn lemma_flat_index_bounds(i: int, j: int, n: int)
    requires
        0 <= i < n,
        0 <= j < n,
    ensures
        0 <= flat_index(i, j) < tri(n),
        tri(if i <= j { j } else { i }) >= 0,
{
    let m = if i <= j { j } else { i };
    lemma_tri_nonneg(m);
    lemma_tri_rows(m, n);
}

pub proof fn lemma_tri_nonneg(b: int)
    ensures
        tri(b) >= 0,
    decreases b,
{
    if b > 0 {
        lemma_tri_nonneg(b - 1);
    }
}

/// Distinct unordered pairs occupy distinct positions.
pub proof fn lemma_flat_index_injective(i: int, j: int, k: int, l: int)
    requires
        0 <= i,
        0 <= j,
        0 <= k,
        0 <= l,
        flat_index(i, j) == flat_index(k, l),
    ensures
        (i == k && j == l) || (i == l && j == k),
{
    let (a, b) = if i <= j { (i, j) } else { (j, i) };
    let (c, d) = if k <= l { (k, l) } else { (l, k) };
    if b < d {
        lemma_tri_rows(b, d);
    } else if d < b {
        lemma_tri_rows(d, b);
    }
}

/// Symmetric `n x n` matrix of `u32` stored as its lower triangle.
#[derive(Clone, Debug)]
pub struct PairMatrix {
    pub n: usize,
    pub data: Vec<u32>,
}

impl PairMatrix {
    pub open spec fn wf(&self) -> bool {
        self.data@.len() == tri(self.n as int) && tri(self.n as int) <= usize::MAX
    }

    /// Entry for the pair `{i, j}`.
    pub open spec fn at(&self, i: int, j: int) -> u32 {
        self.data@[flat_index(i, j)]
    }

    /// An entry bound that holds of every stored value holds of every pair below `n`.
    pub proof fn lemma_at_bounded(&self, i: int, j: int)
        requires
            self.wf(),
            0 <= i < self.n,
            0 <= j < self.n,
        ensures
            0 <= flat_index(i, j) < self.data@.len(),
            self.at(i, j) == self.data@[flat_index(i, j)],
    {
        lemma_flat_index_bounds(i, j, self.n as int);
    }

    /// A matrix of size `n` with every entry equal to `value`.
    pub fn new(n: usize, value: u32) -> (r: PairMatrix)
        requires
            tri(n as int) <= usize::MAX,
        ensures
            r.wf(),
            r.n == n,
            forall|k: int| 0 <= k < r.data@.len() ==> r.data@[k] == value,
    {
        let len = tri_exec(n);
        let mut data: Vec<u32> = Vec::new();
        while data.len() < len
            invariant
                data@.len() <= len,
                forall|k: int| 0 <= k < data@.len() ==> data@[k] == value,
            decreases len - data@.len(),
        {
            data.push(value);
        }
        PairMatrix { n, data }
    }

    pub fn index_of(&self, i: usize, j: usize) -> (r: usize)
        requires
            self.wf(),
            i < self.n,
            j < self.n,
        ensures
            r == flat_index(i as int, j as int),
            r < self.data@.len(),
    {
        proof {
            lemma_flat_index_bounds(i as int, j as int, self.n as int);
            lemma_tri_nonneg(self.n as int);
        }
        let (a, b) = if i <= j { (i, j) } else { (j, i) };
        proof {
            lemma_tri_rows(b as int, self.n as int);
            lemma_tri_nonneg(b as int);
        }
        tri_exec(b) + a
    }

    pub fn get(&self, i: usize, j: usize) -> (r: u32)
        requires
            self.wf(),
            i < self.n,
            j < self.n,
        ensures
            r == self.at(i as int, j as int),
    {
        let k = self.index_of(i, j);
        self.data[k]
    }

    /// Writes `value` for the pair `{i, j}`, leaving every other pair unchanged.
    pub fn set(&mut self, i: usize, j: usize, value: u32)
        requires
            old(self).wf(),
            i < old(self).n,
            j < old(self).n,
        ensures
            final(self).wf(),
            final(self).n == old(self).n,
            final(self).at(i as int, j as int) == value,
            final(self).data@ == old(self).data@.update(flat_index(i as int, j as int), value),
            forall|a: int, b: int|
                0 <= a < old(self).n && 0 <= b < old(self).n && !((a == i && b == j) || (a == j
                    && b == i)) ==> #[trigger] final(self).at(a, b)
                    == old(self).at(a, b),
    {
        let k = self.index_of(i, j);
        self.data.set(k, value);
        proof {
            assert forall|a: int, b: int|
                0 <= a < self.n && 0 <= b < self.n && !((a == i && b == j) || (a == j && b == i)) implies #[trigger] self.at(a, b)
                    == old(self).at(a, b) by {
                lemma_flat_index_bounds(a, b, self.n as int);
                if flat_index(a, b) == flat_index(i as int, j as int) {
                    lemma_flat_index_injective(a, b, i as int, j as int);
                }
            }
        }
    }
}

/// Whether storage for `n` rows can be addressed.
pub fn tri_fits(n: usize) -> (r: bool)
    ensures
        r == (tri(n as int) <= usize::MAX),
{
    proof {
        lemma_tri_closed(n as int);
        assert(usize::MAX <= 0xffff_ffff_ffff_ffff);
        assert(n * (n + 1) <= 0xffff_ffff_ffff_ffff * 0x1_0000_0000_0000_0000) by (nonlinear_arith)
            requires
                0 <= n <= 0xffff_ffff_ffff_ffff,
        ;
    }
    let prod: u128 = (n as u128) * (n as u128 + 1);
    prod / 2 <= usize::MAX as u128
}

/// `tri(b)` computed directly.
pub fn tri_exec(b: usize) -> (r: usize)
    requires
        tri(b as int) <= usize::MAX,
    ensures
        r == tri(b as int),
{
    proof {
        lemma_tri_closed(b as int);
    }
    let prod: u128 = (b as u128) * (b as u128 + 1);
    (prod / 2) as usize
}

} // verus!
