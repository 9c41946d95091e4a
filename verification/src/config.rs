//! Configuration values shared by the whole scheduler.

use vstd::prelude::*;

verus! {

/// Numerator of every pass: a task of priority `p` is charged
/// `BIG_STRIDE / p` for each slot it is given.
///
/// It stays far below half the range of the stride accumulator, so that
/// the window in which queued strides lie never comes near the point
/// where the wraparound comparison stops being an order.
pub const BIG_STRIDE: u64 = 0x7FFF_FFFF;

} // verus!
