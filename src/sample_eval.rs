use vstd::prelude::*;

verus! {

/// Outcome of evaluating a candidate placement of a single item.
///
/// `Valid` placements precede `Colliding` ones, which precede `Invalid` ones;
/// within a group the carried cost orders them ascending.
#[derive(Clone, Copy, Debug, PartialEq, Eq, Structural)]
pub enum SampleEval {
    Valid(u128),
    Colliding(u128),
    Invalid,
}

/// Rank of the group an evaluation belongs to.
pub open spec fn group_rank(e: SampleEval) -> int {
    match e {
        SampleEval::Valid(_) => 0,
        SampleEval::Colliding(_) => 1,
        SampleEval::Invalid => 2,
    }
}

/// Cost carried by an evaluation (zero for `Invalid`).
pub open spec fn carried(e: SampleEval) -> int {
    match e {
        SampleEval::Valid(x) => x as int,
        SampleEval::Colliding(x) => x as int,
        SampleEval::Invalid => 0,
    }
}

/// Strict total order on evaluations: by group, then by carried cost.
pub open spec fn eval_lt(a: SampleEval, b: SampleEval) -> bool {
    group_rank(a) < group_rank(b) || (group_rank(a) == group_rank(b) && carried(a) < carried(b))
}

pub open spec fn eval_le(a: SampleEval, b: SampleEval) -> bool {
    eval_lt(a, b) || a == b
}

pub open spec fn ordering_of(a: SampleEval, b: SampleEval) -> core::cmp::Ordering {
    if eval_lt(a, b) {
        core::cmp::Ordering::Less
    } else if a == b {
        core::cmp::Ordering::Equal
    } else {
        core::cmp::Ordering::Greater
    }
}

impl SampleEval {
    /// Three-way comparison in the order described on the type.
    pub fn compare(&self, other: &SampleEval) -> (r: core::cmp::Ordering)
        ensures
            r == ordering_of(*self, *other),
    {
        match (*self, *other) {
            (SampleEval::Valid(x), SampleEval::Valid(y)) | (
                SampleEval::Colliding(x),
                SampleEval::Colliding(y),
            ) => {
                if x < y {
                    core::cmp::Ordering::Less
                } else if x == y {
                    core::cmp::Ordering::Equal
                } else {
                    core::cmp::Ordering::Greater
                }
            },
            (SampleEval::Invalid, SampleEval::Invalid) => core::cmp::Ordering::Equal,
            (SampleEval::Valid(_), _) => core::cmp::Ordering::Less,
            (SampleEval::Colliding(_), SampleEval::Invalid) => core::cmp::Ordering::Less,
            _ => core::cmp::Ordering::Greater,
        }
    }

    /// Whether `self` is strictly better (smaller) than `other`.
    pub fn is_better_than(&self, other: &SampleEval) -> (r: bool)
        ensures
            r == eval_lt(*self, *other),
    {
        match self.compare(other) {
            core::cmp::Ordering::Less => true,
            _ => false,
        }
    }
}

impl PartialOrd for SampleEval {
    fn partial_cmp(&self, other: &SampleEval) -> (r: Option<core::cmp::Ordering>) {
        Some(self.compare(other))
    }
}

impl vstd::std_specs::cmp::PartialOrdSpecImpl for SampleEval {
    open spec fn obeys_partial_cmp_spec() -> bool {
        true
    }

    open spec fn partial_cmp_spec(&self, other: &SampleEval) -> Option<core::cmp::Ordering> {
        Some(ordering_of(*self, *other))
    }
}

/// The order on evaluations: within `Valid` it follows the carried cost, and
/// every `Valid` precedes every `Colliding`, which precedes `Invalid`.
pub proof fn lemma_eval_order(x: u128, y: u128, z: u128)
    ensures
        eval_lt(SampleEval::Valid(x), SampleEval::Valid(y)) <==> x < y,
        eval_lt(SampleEval::Colliding(x), SampleEval::Colliding(y)) <==> x < y,
        eval_lt(SampleEval::Valid(x), SampleEval::Colliding(z)),
        eval_lt(SampleEval::Colliding(z), SampleEval::Invalid),
        eval_lt(SampleEval::Valid(x), SampleEval::Invalid),
        !eval_lt(SampleEval::Invalid, SampleEval::Invalid),
{
}

/// The order is a strict total order: irreflexive, transitive, and any two
/// distinct evaluations are comparable.
pub proof fn lemma_eval_order_total(a: SampleEval, b: SampleEval, c: SampleEval)
    ensures
        !eval_lt(a, a),
        eval_lt(a, b) && eval_lt(b, c) ==> eval_lt(a, c),
        a != b ==> (eval_lt(a, b) || eval_lt(b, a)),
        !(eval_lt(a, b) && eval_lt(b, a)),
{
}

} // verus!
