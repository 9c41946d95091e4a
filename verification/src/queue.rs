//! Mathematical model of the ready queue: a sequence of task records in
//! the order in which they were added.

use vstd::prelude::*;
use crate::selection::selected;
use crate::task::TaskControlBlock;

verus! {

/// Some entry of the queue belongs to the task `pid`.
pub open spec fn holds_pid(queue: Seq<TaskControlBlock>, pid: usize) -> bool {
    exists|i: int| 0 <= i < queue.len() && (#[trigger] queue[i]).pid == pid
}

/// No task is queued twice.
pub open spec fn distinct_pids(queue: Seq<TaskControlBlock>) -> bool {
    forall|i: int, j: int|
        0 <= i < j < queue.len() ==> (#[trigger] queue[i]).pid != (#[trigger] queue[j]).pid
}

/// What holds of every ready queue: each queued task has a priority of
/// at least 1, and no task is queued twice.
pub open spec fn queue_wf(queue: Seq<TaskControlBlock>) -> bool {
    &&& forall|i: int| 0 <= i < queue.len() ==> (#[trigger] queue[i]).wf()
    &&& distinct_pids(queue)
}

/// The strides of the queued tasks, in queue order.
pub open spec fn strides_of(queue: Seq<TaskControlBlock>) -> Seq<u64> {
    Seq::new(queue.len(), |i: int| queue[i].stride)
}

/// Position of the task that is dispatched next.
pub open spec fn next_index(queue: Seq<TaskControlBlock>) -> int {
    selected(strides_of(queue))
}

/// The task that a fetch hands out, already charged for its slot; none
/// when nothing is queued.
pub open spec fn dispatched(queue: Seq<TaskControlBlock>) -> Option<TaskControlBlock> {
    if queue.len() == 0 {
        None
    } else {
        Some(queue[next_index(queue)].charged())
    }
}

/// The queue that a fetch leaves behind: the dispatched task is taken
/// out, the others keep their order.
pub open spec fn after_fetch(queue: Seq<TaskControlBlock>) -> Seq<TaskControlBlock> {
    if queue.len() == 0 {
        queue
    } else {
        queue.remove(next_index(queue))
    }
}

} // verus!
