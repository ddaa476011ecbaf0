//! The counters that hand out identifiers: each owner keeps its own and
//! steps it once per identifier, wrapping around after the largest number.

use vstd::prelude::*;

verus! {

/// The number after `n`, wrapping around after the largest one.
pub open spec fn next_number(n: usize) -> usize {
    if n == usize::MAX {
        0
    } else {
        (n + 1) as usize
    }
}

/// The counter's value after `k` identifiers were handed out from `start`.
pub open spec fn counter_after(start: usize, k: nat) -> usize
    decreases k,
{
    if k == 0 {
        start
    } else {
        next_number(counter_after(start, (k - 1) as nat))
    }
}

/// A counter counts up: until it would pass the largest number, the
/// `k`-th identifier handed out from `start` is `start + k`. So the
/// identifiers a counter hands out before wrapping are distinct and
/// increasing, and none is below `start` (a counter started at one never
/// hands out zero).
pub proof fn law_counter_counts_up(start: usize, k: nat)
    requires
        start + k <= usize::MAX,
    ensures
        counter_after(start, k) == start + k,
        forall|i: nat, j: nat|
            i < j <= k ==> #[trigger] counter_after(start, i) < #[trigger] counter_after(start, j),
        forall|i: nat| i <= k ==> #[trigger] counter_after(start, i) >= start,
    decreases k,
{
    if k > 0 {
        law_counter_counts_up(start, (k - 1) as nat);
    }
    assert forall|i: nat| i <= k implies #[trigger] counter_after(start, i) == start + i by {
        lemma_counter_value(start, i);
    }
}

proof fn lemma_counter_value(start: usize, k: nat)
    requires
        start + k <= usize::MAX,
    ensures
        counter_after(start, k) == start + k,
    decreases k,
{
    if k > 0 {
        lemma_counter_value(start, (k - 1) as nat);
    }
}

} // verus!
