//! The scheduler: owner of the ready queue.

use std::collections::VecDeque;
use vstd::prelude::*;
use crate::queue::{after_fetch, dispatched, holds_pid, next_index, queue_wf, strides_of};
use crate::selection::{
    is_first_minimum, lemma_selected_is_first_minimum, scan_choice, within_half_range,
};
use crate::stride::{advance, is_before};
use crate::task::TaskControlBlock;

verus! {

/// Stride scheduler over a queue of runnable tasks.
pub struct TaskManager {
    ready_queue: VecDeque<TaskControlBlock>,
}

impl View for TaskManager {
    type V = Seq<TaskControlBlock>;

    /// The queued tasks, in the order in which they were added.
    closed spec fn view(&self) -> Seq<TaskControlBlock> {
        self.ready_queue@
    }
}

impl TaskManager {
    /// The queue satisfies `queue_wf`.
    pub open spec fn wf(&self) -> bool {
        queue_wf(self@)
    }

    /// Creates a scheduler with nothing queued.
    pub fn new() -> (manager: Self)
        ensures
            manager.wf(),
            manager@ == Seq::<TaskControlBlock>::empty(),
    {
        Self { ready_queue: VecDeque::new() }
    }

    /// Number of queued tasks.
    pub fn len(&self) -> (n: usize)
        ensures
            n == self@.len(),
    {
        self.ready_queue.len()
    }

    /// Whether nothing is queued.
    pub fn is_empty(&self) -> (empty: bool)
        ensures
            empty <==> self@.len() == 0,
    {
        self.ready_queue.len() == 0
    }

    /// Whether the task `pid` is queued.
    pub fn contains(&self, pid: usize) -> (found: bool)
        ensures
            found <==> holds_pid(self@, pid),
    {
        let n = self.ready_queue.len();
        let mut i: usize = 0;
        while i < n
            invariant
                n == self.ready_queue@.len(),
                i <= n,
                forall|k: int| 0 <= k < i ==> (#[trigger] self.ready_queue@[k]).pid != pid,
            decreases n - i,
        {
            if self.ready_queue[i].pid == pid {
                return true;
            }
            i += 1;
        }
        false
    }

    /// Puts a runnable task at the back of the queue.
    ///
    /// The caller vouches for the task: its priority is at least 1, and
    /// it is not in the queue already.
    pub fn add(&mut self, task: TaskControlBlock)
        requires
            old(self).wf(),
            task.wf(),
            !holds_pid(old(self)@, task.pid),
        ensures
            final(self).wf(),
            final(self)@ == old(self)@.push(task),
    {
        self.ready_queue.push_back(task);
    }

    /// Takes the task with the least stride out of the queue, charges it
    /// one pass for the slot it is about to get, and returns it. Among
    /// tasks of equal stride the one queued first wins. Returns `None`
    /// when nothing is queued.
    pub fn fetch(&mut self) -> (result: Option<TaskControlBlock>)
        requires
            old(self).wf(),
        ensures
            final(self).wf(),
            result == dispatched(old(self)@),
            final(self)@ == after_fetch(old(self)@),
            result is None <==> old(self)@.len() == 0,
            old(self)@.len() == 0 ==> final(self)@ == old(self)@,
            result matches Some(task) ==> !holds_pid(final(self)@, task.pid),
            old(self)@.len() > 0 && within_half_range(strides_of(old(self)@))
                ==> is_first_minimum(strides_of(old(self)@), next_index(old(self)@)),
    {
        let n = self.ready_queue.len();
        if n == 0 {
            return None;
        }
        proof {
            if within_half_range(strides_of(self@)) {
                lemma_selected_is_first_minimum(strides_of(self@));
            }
        }
        let ghost strides = strides_of(self@);
        let mut min_stride: u64 = self.ready_queue[0].stride;
        let mut idx: usize = 0;
        let mut i: usize = 1;
        while i < n
            invariant
                self.ready_queue@ == old(self).ready_queue@,
                n == self.ready_queue@.len(),
                strides == strides_of(self@),
                1 <= i <= n,
                idx < i,
                idx == scan_choice(strides, i as int),
                min_stride == strides[idx as int],
            decreases n - i,
        {
            let stride = self.ready_queue[i].stride;
            if is_before(stride, min_stride) {
                min_stride = stride;
                idx = i;
            }
            i += 1;
        }
        match self.ready_queue.remove(idx) {
            Some(task) => {
                Some(
                    TaskControlBlock {
                        pid: task.pid,
                        priority: task.priority,
                        stride: advance(task.stride, task.priority),
                    },
                )
            },
            None => None,
        }
    }
}

/// Enqueues a runnable task on the kernel's scheduler.
pub fn add_task(manager: &mut TaskManager, task: TaskControlBlock)
    requires
        old(manager).wf(),
        task.wf(),
        !holds_pid(old(manager)@, task.pid),
    ensures
        final(manager).wf(),
        final(manager)@ == old(manager)@.push(task),
{
    manager.add(task);
}

/// Dequeues the task that the kernel's scheduler dispatches next, or
/// `None` when the processor has nothing to run.
pub fn fetch_task(manager: &mut TaskManager) -> (result: Option<TaskControlBlock>)
    requires
        old(manager).wf(),
    ensures
        final(manager).wf(),
        result == dispatched(old(manager)@),
        final(manager)@ == after_fetch(old(manager)@),
        result is None <==> old(manager)@.len() == 0,
        old(manager)@.len() == 0 ==> final(manager)@ == old(manager)@,
        result matches Some(task) ==> !holds_pid(final(manager)@, task.pid),
        old(manager)@.len() > 0 && within_half_range(strides_of(old(manager)@))
            ==> is_first_minimum(strides_of(old(manager)@), next_index(old(manager)@)),
{
    manager.fetch()
}

} // verus!
