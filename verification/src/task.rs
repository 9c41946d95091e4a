//! The record of a task that the scheduler keeps.

use vstd::prelude::*;
use crate::stride::advanced;

verus! {

/// What the scheduler holds of a task: the identifier under which the
/// kernel's task table knows it, and the two fields of its bookkeeping.
///
/// The record moves into the ready queue when the task becomes runnable
/// and out of it when the task is dispatched; everything else about a
/// task lives in the task table.
#[derive(Clone, Copy, Debug, PartialEq, Eq)]
pub struct TaskControlBlock {
    /// Identifier of the task in the kernel's task table.
    pub pid: usize,
    /// Weight of the task in proportional-share scheduling. The task's
    /// creator keeps it at 1 or above.
    pub priority: u64,
    /// Accumulated virtual runtime. It wraps at the top of its range.
    pub stride: u64,
}

impl TaskControlBlock {
    /// The record is one that the scheduler accepts: its priority is at
    /// least 1, so that a pass can be computed for it.
    pub open spec fn wf(self) -> bool {
        self.priority >= 1
    }

    /// The same task after it was charged for one slot.
    pub open spec fn charged(self) -> TaskControlBlock {
        TaskControlBlock {
            pid: self.pid,
            priority: self.priority,
            stride: advanced(self.stride, self.priority),
        }
    }
}

} // verus!
