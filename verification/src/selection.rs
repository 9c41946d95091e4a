//! Which entry of the ready queue a scan selects.

use vstd::prelude::*;
use crate::stride::{forward_distance, half_range, signed_difference, stride_before};

verus! {

/// Index that one scan of `strides` holds after it has looked at the
/// first `n` entries: the scan starts with entry 0 and moves on to a
/// later entry only when that entry's stride is strictly before the one
/// it holds.
pub open spec fn scan_choice(strides: Seq<u64>, n: int) -> int
    decreases n,
{
    if n <= 1 {
        0
    } else {
        let held = scan_choice(strides, n - 1);
        if stride_before(strides[n - 1], strides[held]) {
            n - 1
        } else {
            held
        }
    }
}

/// Index that a scan of all of `strides` selects.
pub open spec fn selected(strides: Seq<u64>) -> int {
    scan_choice(strides, strides.len() as int)
}

/// Every stride lies less than `width` ahead of `base`.
pub open spec fn fits_window(strides: Seq<u64>, base: u64, width: int) -> bool {
    forall|j: int|
        0 <= j < strides.len() ==> forward_distance(base, #[trigger] strides[j]) < width
}

/// The standing condition of stride scheduling: the strides fit in a
/// window shorter than half the accumulator's range.
pub open spec fn within_half_range(strides: Seq<u64>) -> bool {
    exists|base: u64| fits_window(strides, base, half_range())
}

/// No stride is before the one at `idx`, and that one is strictly before
/// every stride in front of it: `idx` is the first entry of minimal
/// stride.
pub open spec fn is_first_minimum(strides: Seq<u64>, idx: int) -> bool {
    &&& 0 <= idx < strides.len()
    &&& forall|j: int| 0 <= j < strides.len() ==> !stride_before(#[trigger] strides[j], strides[idx])
    &&& forall|j: int| 0 <= j < idx ==> stride_before(strides[idx], #[trigger] strides[j])
}

/// The scan's choice is an index of an entry it has looked at.
pub proof fn lemma_scan_choice_in_range(strides: Seq<u64>, n: int)
    requires
        1 <= n,
    ensures
        0 <= scan_choice(strides, n) < n,
    decreases n,
{
    if n > 1 {
        lemma_scan_choice_in_range(strides, n - 1);
    }
}

/// Inside a window shorter than half the range the wraparound
/// comparison agrees with the order of the distances from the window's
/// base, and the signed difference is the difference of those distances.
pub proof fn lemma_order_in_window(base: u64, a: u64, b: u64)
    requires
        forward_distance(base, a) < half_range(),
        forward_distance(base, b) < half_range(),
    ensures
        signed_difference(a, b) == forward_distance(base, a) - forward_distance(base, b),
        stride_before(a, b) <==> forward_distance(base, a) < forward_distance(base, b),
{
}

/// Inside a window shorter than half the range, what the scan holds
/// after `n` entries is the first of the entries nearest to the window's
/// base.
pub proof fn lemma_scan_choice_nearest(strides: Seq<u64>, base: u64, n: int)
    requires
        fits_window(strides, base, half_range()),
        1 <= n <= strides.len(),
    ensures
        0 <= scan_choice(strides, n) < n,
        forall|j: int|
            0 <= j < n ==> forward_distance(base, strides[scan_choice(strides, n)])
                <= forward_distance(base, #[trigger] strides[j]),
        forall|j: int|
            0 <= j < scan_choice(strides, n) ==> forward_distance(
                base,
                strides[scan_choice(strides, n)],
            ) < forward_distance(base, #[trigger] strides[j]),
    decreases n,
{
    if n > 1 {
        lemma_scan_choice_nearest(strides, base, n - 1);
        let held = scan_choice(strides, n - 1);
        lemma_order_in_window(base, strides[n - 1], strides[held]);
    }
}

/// Where the strides fit in a window shorter than half the range, the
/// scan selects the first entry of minimal stride.
pub proof fn lemma_selected_is_first_minimum(strides: Seq<u64>)
    requires
        strides.len() > 0,
        within_half_range(strides),
    ensures
        is_first_minimum(strides, selected(strides)),
{
    let base = choose|base: u64| fits_window(strides, base, half_range());
    let idx = selected(strides);
    lemma_scan_choice_nearest(strides, base, strides.len() as int);
    assert forall|j: int| 0 <= j < strides.len() implies !stride_before(
        #[trigger] strides[j],
        strides[idx],
    ) by {
        lemma_order_in_window(base, strides[j], strides[idx]);
    }
    assert forall|j: int| 0 <= j < idx implies stride_before(
        strides[idx],
        #[trigger] strides[j],
    ) by {
        lemma_order_in_window(base, strides[idx], strides[j]);
    }
}

/// At most one entry is the first of minimal stride.
pub proof fn lemma_first_minimum_unique(strides: Seq<u64>, i: int, j: int)
    requires
        is_first_minimum(strides, i),
        is_first_minimum(strides, j),
    ensures
        i == j,
{
    if i < j {
        assert(stride_before(strides[j], strides[i]));
    } else if j < i {
        assert(stride_before(strides[i], strides[j]));
    }
}

/// An entry that no stride is before exists only where the strides fit
/// in a window shorter than half the range: the window that starts at
/// that entry.
pub proof fn lemma_minimum_needs_window(strides: Seq<u64>, idx: int)
    requires
        is_first_minimum(strides, idx),
    ensures
        fits_window(strides, strides[idx], half_range()),
        within_half_range(strides),
{
    assert forall|j: int| 0 <= j < strides.len() implies forward_distance(
        strides[idx],
        #[trigger] strides[j],
    ) < half_range() by {
        assert(!stride_before(strides[j], strides[idx]));
    }
}

} // verus!
