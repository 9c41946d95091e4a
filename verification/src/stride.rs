//! Arithmetic on strides: the wraparound-aware order, the pass of a
//! priority, and the advance of a stride by one pass.

use vstd::prelude::*;
use crate::config::BIG_STRIDE;

verus! {

/// Number of values a stride accumulator can hold.
pub open spec fn stride_range() -> int {
    0x1_0000_0000_0000_0000
}

/// Half of `stride_range()`: strides closer together than this are
/// ordered correctly across a wraparound.
pub open spec fn half_range() -> int {
    0x8000_0000_0000_0000
}

/// How far `to` lies ahead of `from` when walking upwards around the
/// accumulator's range: the difference `to - from` read as an unsigned
/// value of the accumulator's width.
pub open spec fn forward_distance(from: u64, to: u64) -> int {
    (to - from) % stride_range()
}

/// The difference `a - b` read as a signed value of the accumulator's
/// width.
pub open spec fn signed_difference(a: u64, b: u64) -> int {
    let d = forward_distance(b, a);
    if d >= half_range() {
        d - stride_range()
    } else {
        d
    }
}

/// `a` is behind `b` in virtual time: the signed difference `a - b` is
/// negative.
pub open spec fn stride_before(a: u64, b: u64) -> bool {
    signed_difference(a, b) < 0
}

/// Wraparound-aware strict comparison of two strides.
pub fn is_before(a: u64, b: u64) -> (r: bool)
    ensures
        r == stride_before(a, b),
{
    let unsigned: u64 = a.wrapping_sub(b);
    let signed: i64 = #[verifier::truncate] (unsigned as i64);
    assert(signed < 0 <==> unsigned >= 0x8000_0000_0000_0000u64) by (bit_vector)
        requires
            signed == unsigned as i64,
    ;
    signed < 0
}

/// Pass of a task of the given priority: what one slot costs it in
/// virtual time. Not meaningful for priority 0.
pub open spec fn pass_of(priority: u64) -> u64 {
    BIG_STRIDE / priority
}

/// A stride after it was advanced by the pass of `priority`; the
/// accumulator wraps at the top of its range.
pub open spec fn advanced(stride: u64, priority: u64) -> u64 {
    ((stride + pass_of(priority)) % stride_range()) as u64
}

/// Computes the pass of a priority, in the accumulator's own width.
pub fn pass(priority: u64) -> (r: u64)
    requires
        priority >= 1,
    ensures
        r == pass_of(priority),
        r <= BIG_STRIDE,
{
    BIG_STRIDE / priority
}

/// Advances a stride by the pass of `priority`, wrapping at the top of
/// the accumulator's range.
pub fn advance(stride: u64, priority: u64) -> (r: u64)
    requires
        priority >= 1,
    ensures
        r == advanced(stride, priority),
{
    stride.wrapping_add(pass(priority))
}

} // verus!
