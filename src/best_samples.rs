use vstd::prelude::*;
use crate::sample_eval::{SampleEval, eval_lt, eval_le};

verus! {

/// A decomposed rigid transform: rotation and translation, in fixed-point units.
#[derive(Clone, Copy, Debug, PartialEq, Eq, Structural)]
pub struct DTransf {
    pub rotation: i64,
    pub tx: i64,
    pub ty: i64,
}

pub open spec fn abs_diff(a: i64, b: i64) -> int {
    if a >= b { a - b } else { b - a }
}

/// How close two transforms must be to count as duplicates: a bound on the rotation
/// difference, and one on each translation component (the caller scales the latter
/// by the item's smallest dimension).
#[derive(Clone, Copy, Debug, PartialEq, Eq, Structural)]
pub struct UniqueThreshold {
    pub rotation: u64,
    pub translation: u64,
}

/// Two transforms are duplicates when their rotations differ by at most the rotation
/// bound and each translation component by at most the translation bound (an
/// L-infinity distance within the threshold).
pub open spec fn is_duplicate(a: DTransf, b: DTransf, threshold: UniqueThreshold) -> bool {
    abs_diff(a.rotation, b.rotation) <= threshold.rotation && abs_diff(a.tx, b.tx) <= threshold.translation
        && abs_diff(a.ty, b.ty) <= threshold.translation
}

/// `dt` is not a duplicate of any transform stored in `s`.
pub open spec fn unique_among(s: Seq<(DTransf, SampleEval)>, dt: DTransf, threshold: UniqueThreshold) -> bool {
    forall|i: int| 0 <= i < s.len() ==> !is_duplicate(#[trigger] s[i].0, dt, threshold)
}

/// Entries are sorted ascending by evaluation.
pub open spec fn sorted_by_eval(s: Seq<(DTransf, SampleEval)>) -> bool {
    forall|i: int, j: int| 0 <= i < j < s.len() ==> eval_le(#[trigger] s[i].1, #[trigger] s[j].1)
}

/// Whether a buffer holding `s` with room for `capacity` entries takes `(dt, eval)`.
pub open spec fn accepts(
    s: Seq<(DTransf, SampleEval)>,
    capacity: usize,
    threshold: UniqueThreshold,
    dt: DTransf,
    eval: SampleEval,
) -> bool {
    unique_among(s, dt, threshold) && (s.len() < capacity || (s.len() > 0 && eval_lt(
        eval,
        s.last().1,
    )))
}

/// `r` is `s` with `e` inserted after every entry not worse than it and before every
/// entry worse than it.
pub open spec fn inserted_in_order(
    s: Seq<(DTransf, SampleEval)>,
    e: (DTransf, SampleEval),
    r: Seq<(DTransf, SampleEval)>,
) -> bool {
    exists|p: int|
        0 <= p <= s.len() && r == s.take(p).push(e) + s.skip(p) && (forall|i: int|
            0 <= i < p ==> eval_le(#[trigger] s[i].1, e.1)) && (forall|i: int|
            p <= i < s.len() ==> eval_lt(e.1, #[trigger] s[i].1))
}

/// Bounded container of the best samples seen so far, sorted ascending by evaluation,
/// that refuses samples too close to a stored one.
#[derive(Clone, Debug)]
pub struct BestSamples {
    pub samples: Vec<(DTransf, SampleEval)>,
    pub capacity: usize,
    pub unique_threshold: UniqueThreshold,
}

impl BestSamples {
    pub open spec fn wf(&self) -> bool {
        self.samples@.len() <= self.capacity && sorted_by_eval(self.samples@)
    }

    pub fn new(capacity: usize, unique_threshold: UniqueThreshold) -> (r: BestSamples)
        ensures
            r.wf(),
            r.samples@.len() == 0,
            r.capacity == capacity,
            r.unique_threshold == unique_threshold,
    {
        BestSamples { samples: Vec::new(), capacity, unique_threshold }
    }

    /// Offers a sample; returns whether it was stored. When the buffer is full the
    /// worst entry is evicted in favour of a strictly better sample.
    pub fn report(&mut self, dt: DTransf, eval: SampleEval) -> (r: bool)
        requires
            old(self).wf(),
            old(self).capacity >= 1,
        ensures
            final(self).wf(),
            final(self).capacity == old(self).capacity,
            final(self).unique_threshold == old(self).unique_threshold,
            r == accepts(old(self).samples@, old(self).capacity, old(self).unique_threshold, dt, eval),
            r && old(self).samples@.len() < old(self).capacity ==> inserted_in_order(
                old(self).samples@,
                (dt, eval),
                final(self).samples@,
            ),
            r && old(self).samples@.len() >= old(self).capacity ==> inserted_in_order(
                old(self).samples@.drop_last(),
                (dt, eval),
                final(self).samples@,
            ),
            !r ==> final(self).samples@ == old(self).samples@,
    {
        let n = self.samples.len();
        let mut i: usize = 0;
        while i < n
            invariant
                n == self.samples@.len(),
                *self == *old(self),
                self.wf(),
                0 <= i <= n,
                forall|k: int| 0 <= k < i ==> !is_duplicate(#[trigger] self.samples@[k].0, dt, self.unique_threshold),
            decreases n - i,
        {
            if transforms_are_duplicates(self.samples[i].0, dt, self.unique_threshold) {
                return false;
            }
            i = i + 1;
        }
        if n >= self.capacity {
            if n == 0 || !eval.is_better_than(&self.samples[n - 1].1) {
                return false;
            }
            self.samples.pop();
        }
        let ghost base = self.samples@;
        // find the first entry strictly worse than the new one
        let m = self.samples.len();
        let mut p: usize = 0;
        while p < m && !eval.is_better_than(&self.samples[p].1)
            invariant
                m == self.samples@.len(),
                self.samples@ == base,
                sorted_by_eval(base),
                0 <= p <= m,
                forall|k: int| 0 <= k < p ==> eval_le(#[trigger] base[k].1, eval),
            decreases m - p,
        {
            proof {
                crate::sample_eval::lemma_eval_order_total(base[p as int].1, eval, eval);
            }
            p = p + 1;
        }
        proof {
            assert forall|k: int| p <= k < base.len() implies eval_lt(eval, #[trigger] base[k].1) by {
                crate::sample_eval::lemma_eval_order_total(eval, base[p as int].1, base[k].1);
            }
        }
        self.samples.insert(p, (dt, eval));
        proof {
            assert(self.samples@ =~= base.take(p as int).push((dt, eval)) + base.skip(p as int));
            let s = self.samples@;
            assert forall|a: int, b: int| 0 <= a < b < s.len() implies eval_le(#[trigger] s[a].1, #[trigger] s[b].1) by {
                if a < p && b > p {
                    crate::sample_eval::lemma_eval_order_total(s[a].1, eval, s[b].1);
                }
            }
        }
        true
    }

    pub fn best(&self) -> (r: Option<&(DTransf, SampleEval)>)
        ensures
            self.samples@.len() == 0 ==> r.is_none(),
            self.samples@.len() > 0 ==> r == Some(&self.samples@[0]),
    {
        self.samples.first()
    }

    pub fn take_best(self) -> (r: Option<(DTransf, SampleEval)>)
        ensures
            self.samples@.len() == 0 ==> r.is_none(),
            self.samples@.len() > 0 ==> r == Some(self.samples@[0]),
    {
        if self.samples.len() == 0 {
            None
        } else {
            Some(self.samples[0])
        }
    }

    pub fn worst(&self) -> (r: Option<&(DTransf, SampleEval)>)
        ensures
            self.samples@.len() == 0 ==> r.is_none(),
            self.samples@.len() > 0 ==> r == Some(&self.samples@.last()),
    {
        self.samples.last()
    }

    /// The worst stored evaluation once the buffer is full; `None` before that.
    pub fn upper_bound(&self) -> (r: Option<SampleEval>)
        ensures
            self.samples@.len() == self.capacity && self.samples@.len() > 0 ==> r == Some(
                self.samples@.last().1,
            ),
            self.samples@.len() != self.capacity || self.samples@.len() == 0 ==> r.is_none(),
    {
        let n = self.samples.len();
        if n == self.capacity && n > 0 {
            Some(self.samples[n - 1].1)
        } else {
            None
        }
    }
}

/// Whether two transforms lie within `threshold` of each other on every component.
pub fn transforms_are_duplicates(a: DTransf, b: DTransf, threshold: UniqueThreshold) -> (r: bool)
    ensures
        r == is_duplicate(a, b, threshold),
{
    let dr = (a.rotation as i128 - b.rotation as i128);
    let dx = (a.tx as i128 - b.tx as i128);
    let dy = (a.ty as i128 - b.ty as i128);
    let r = threshold.rotation as i128;
    let t = threshold.translation as i128;
    (-r <= dr && dr <= r) && (-t <= dx && dx <= t) && (-t <= dy && dy <= t)
}

/// Reporting is idempotent: once `report` has stored `(dt, eval)`, taking the buffer
/// from `before` to `after`, reporting the same sample again is refused.
pub proof fn lemma_report_idempotent(
    before: Seq<(DTransf, SampleEval)>,
    after: Seq<(DTransf, SampleEval)>,
    capacity: usize,
    threshold: UniqueThreshold,
    dt: DTransf,
    eval: SampleEval,
)
    requires
        inserted_in_order(before, (dt, eval), after) || inserted_in_order(before.drop_last(), (dt, eval), after),
    ensures
        !accepts(after, capacity, threshold, dt, eval),
{
    let base = if inserted_in_order(before, (dt, eval), after) { before } else { before.drop_last() };
    let p = choose|p: int|
        0 <= p <= base.len() && after == base.take(p).push((dt, eval)) + base.skip(p) && (forall|i: int|
            0 <= i < p ==> eval_le(#[trigger] base[i].1, eval)) && (forall|i: int|
            p <= i < base.len() ==> eval_lt(eval, #[trigger] base[i].1));
    assert(after[p] == (dt, eval));
    assert(is_duplicate(after[p].0, dt, threshold));
}

} // verus!
