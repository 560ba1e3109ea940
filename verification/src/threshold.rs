//! The shared model of the best-known value: a running maximum.
//!
//! The controller's global best metric and every worker's local threshold
//! move by the same rule — replace the held value whenever a strictly larger
//! one arrives — so both are specified through `running_max`.

use vstd::prelude::*;

verus! {

/// The value held after starting from `init` and taking each element of `vs`
/// in turn, replacing the held value whenever the element is larger.
pub open spec fn running_max(init: u64, vs: Seq<u64>) -> u64
    decreases vs.len(),
{
    if vs.len() == 0 {
        init
    } else {
        let prev = running_max(init, vs.drop_last());
        if vs.last() > prev {
            vs.last()
        } else {
            prev
        }
    }
}

/// The running maximum is at least the starting value and at least every
/// value taken in.  In particular, after a worker drains threshold updates
/// containing a broadcast value, its threshold is at least that value.
pub proof fn lemma_running_max_bounds(init: u64, vs: Seq<u64>)
    ensures
        running_max(init, vs) >= init,
        forall|k: int| 0 <= k < vs.len() ==> running_max(init, vs) >= vs[k],
    decreases vs.len(),
{
    if vs.len() > 0 {
        lemma_running_max_bounds(init, vs.drop_last());
        assert forall|k: int| 0 <= k < vs.len() implies running_max(init, vs) >= vs[k] by {
            if k < vs.len() - 1 {
                assert(vs.drop_last()[k] == vs[k]);
            }
        }
    }
}

/// Monotonicity: over any sequence of arriving values, the successive held
/// values never decrease — a later prefix never holds less than an earlier
/// one.
pub proof fn lemma_running_max_monotonic(init: u64, vs: Seq<u64>, i: int, j: int)
    requires
        0 <= i <= j <= vs.len(),
    ensures
        running_max(init, vs.take(i)) <= running_max(init, vs.take(j)),
    decreases j - i,
{
    if i < j {
        lemma_running_max_monotonic(init, vs, i, j - 1);
        assert(vs.take(j).drop_last() =~= vs.take(j - 1));
    }
}

} // verus!
