//! Laws of the scheduler that relate several operations, proved over the
//! model of the queue that the operations' contracts are stated in.

use vstd::prelude::*;
use crate::config::BIG_STRIDE;
use crate::queue::{after_fetch, dispatched, holds_pid, next_index, queue_wf, strides_of};
use crate::selection::{
    fits_window, lemma_scan_choice_in_range, lemma_scan_choice_nearest,
    lemma_selected_is_first_minimum, within_half_range,
};
use crate::stride::{advanced, forward_distance, half_range, pass_of};
use crate::task::TaskControlBlock;

verus! {

/// The queue after each of `tasks` was added in turn to `queue`.
pub open spec fn enqueue_all(
    queue: Seq<TaskControlBlock>,
    tasks: Seq<TaskControlBlock>,
) -> Seq<TaskControlBlock>
    decreases tasks.len(),
{
    if tasks.len() == 0 {
        queue
    } else {
        enqueue_all(queue.push(tasks[0]), tasks.drop_first())
    }
}

/// Adding distinct runnable tasks one after another is allowed at every
/// step, and leaves the queue with the old entries followed by the new
/// ones in the order of the adds: started from an empty queue, the
/// length is the number of adds.
pub proof fn law_adds_keep_count_and_order(
    queue: Seq<TaskControlBlock>,
    tasks: Seq<TaskControlBlock>,
)
    requires
        queue_wf(queue + tasks),
    ensures
        forall|k: int|
            0 <= k < tasks.len() ==> {
                &&& queue_wf(#[trigger] enqueue_all(queue, tasks.take(k)))
                &&& tasks[k].wf()
                &&& !holds_pid(enqueue_all(queue, tasks.take(k)), tasks[k].pid)
            },
        enqueue_all(queue, tasks) == queue + tasks,
        enqueue_all(queue, tasks).len() == queue.len() + tasks.len(),
        queue_wf(enqueue_all(queue, tasks)),
{
    lemma_enqueue_all_appends(queue, tasks);
    assert forall|k: int| 0 <= k < tasks.len() implies {
        &&& queue_wf(#[trigger] enqueue_all(queue, tasks.take(k)))
        &&& tasks[k].wf()
        &&& !holds_pid(enqueue_all(queue, tasks.take(k)), tasks[k].pid)
    } by {
        let whole = queue + tasks;
        let part = queue + tasks.take(k);
        lemma_enqueue_all_appends(queue, tasks.take(k));
        assert forall|i: int| 0 <= i < part.len() implies part[i] == whole[i] by {}
        assert(whole[queue.len() + k] == tasks[k]);
        assert(whole[queue.len() + k].wf());
        assert forall|i: int| 0 <= i < part.len() implies (#[trigger] part[i]).pid
            != tasks[k].pid by {
            assert(whole[i].pid != whole[queue.len() + k].pid);
        }
    }
}

/// Adding tasks one after another appends them.
pub proof fn lemma_enqueue_all_appends(
    queue: Seq<TaskControlBlock>,
    tasks: Seq<TaskControlBlock>,
)
    ensures
        enqueue_all(queue, tasks) == queue + tasks,
    decreases tasks.len(),
{
    if tasks.len() > 0 {
        lemma_enqueue_all_appends(queue.push(tasks[0]), tasks.drop_first());
        assert(queue.push(tasks[0]) + tasks.drop_first() =~= queue + tasks);
    } else {
        assert(queue + tasks =~= queue);
    }
}

/// Tasks of equal stride leave in the order in which they were added:
/// while the strides fit in a window shorter than half the range, a
/// fetch never takes a task that stands behind one of the same stride.
pub proof fn law_equal_strides_leave_in_order(queue: Seq<TaskControlBlock>, i: int, j: int)
    requires
        within_half_range(strides_of(queue)),
        0 <= i < j < queue.len(),
        queue[i].stride == queue[j].stride,
    ensures
        next_index(queue) != j,
{
    let strides = strides_of(queue);
    lemma_selected_is_first_minimum(strides);
    assert(strides[i] == strides[j]);
}

/// A task added to an empty queue is the one that the next fetch
/// returns, charged one pass, and that fetch leaves the queue empty.
pub proof fn law_add_then_fetch_round_trip(task: TaskControlBlock)
    ensures
        dispatched(Seq::<TaskControlBlock>::empty().push(task)) == Some(task.charged()),
        after_fetch(Seq::<TaskControlBlock>::empty().push(task))
            == Seq::<TaskControlBlock>::empty(),
{
    let queue = Seq::<TaskControlBlock>::empty().push(task);
    assert(next_index(queue) == 0);
    assert(queue.remove(0) =~= Seq::<TaskControlBlock>::empty());
}

/// A fetch takes out exactly the dispatched task: every other task keeps
/// its place relative to the others and its fields, the dispatched one
/// is gone, and it may be added again.
pub proof fn law_fetch_removes_only_the_dispatched(queue: Seq<TaskControlBlock>)
    requires
        queue_wf(queue),
        queue.len() > 0,
    ensures
        0 <= next_index(queue) < queue.len(),
        after_fetch(queue).len() == queue.len() - 1,
        forall|k: int|
            0 <= k < next_index(queue) ==> (#[trigger] after_fetch(queue)[k]) == queue[k],
        forall|k: int|
            next_index(queue) <= k < queue.len() - 1 ==> (#[trigger] after_fetch(queue)[k])
                == queue[k + 1],
        !holds_pid(after_fetch(queue), queue[next_index(queue)].pid),
        queue_wf(after_fetch(queue)),
        queue_wf(after_fetch(queue).push(dispatched(queue).unwrap())),
{
    let idx = next_index(queue);
    lemma_scan_choice_in_range(strides_of(queue), queue.len() as int);
    let rest = after_fetch(queue);
    assert forall|k: int| 0 <= k < rest.len() implies (#[trigger] rest[k]).pid
        != queue[idx].pid by {
        if k < idx {
            assert(queue[k].pid != queue[idx].pid);
        } else {
            assert(queue[idx].pid != queue[k + 1].pid);
        }
    }
    assert forall|a: int, b: int| 0 <= a < b < rest.len() implies (#[trigger] rest[a]).pid != (
    #[trigger] rest[b]).pid by {
        let a0 = if a < idx { a } else { a + 1 };
        let b0 = if b < idx { b } else { b + 1 };
        assert(queue[a0].pid != queue[b0].pid);
    }
    assert forall|k: int| 0 <= k < rest.len() implies (#[trigger] rest[k]).wf() by {
        let k0 = if k < idx { k } else { k + 1 };
        assert(queue[k0].wf());
    }
    assert(queue[idx].wf());
}

/// Width of a window whose strides lie at most `BIG_STRIDE` apart.
pub open spec fn big_stride_window() -> int {
    BIG_STRIDE + 1
}

/// The strides lie at most `BIG_STRIDE` apart: the spread that stride
/// scheduling keeps.
pub open spec fn within_big_stride(strides: Seq<u64>) -> bool {
    exists|base: u64| fits_window(strides, base, big_stride_window())
}

/// A spread of at most `BIG_STRIDE` is a window shorter than half the
/// range.
pub proof fn law_big_stride_fits_half_range(strides: Seq<u64>)
    requires
        within_big_stride(strides),
    ensures
        within_half_range(strides),
{
    let base = choose|base: u64| fits_window(strides, base, big_stride_window());
    assert(fits_window(strides, base, half_range()));
}

/// Measured from a stride inside a window instead of from the window's
/// base, every stride that lies no nearer to the base keeps its place:
/// its distance shrinks by the distance of the new starting point.
pub proof fn lemma_distance_from_inside(base: u64, start: u64, stride: u64)
    requires
        forward_distance(base, start) <= forward_distance(base, stride) < half_range(),
    ensures
        forward_distance(start, stride) == forward_distance(base, stride) - forward_distance(
            base,
            start,
        ),
{
}

/// A charged stride lies exactly one pass ahead of what it was, and a
/// pass is at most `BIG_STRIDE`.
pub proof fn lemma_charge_is_one_pass(stride: u64, priority: u64)
    requires
        priority >= 1,
    ensures
        forward_distance(stride, advanced(stride, priority)) == pass_of(priority),
        pass_of(priority) <= BIG_STRIDE,
{
    assert(BIG_STRIDE / priority <= BIG_STRIDE) by (nonlinear_arith)
        requires
            priority >= 1,
    ;
}

/// Stride scheduling keeps its standing condition: where the queued
/// strides lie within `BIG_STRIDE` of each other, they still do after
/// the next task was fetched, charged, and added again.
pub proof fn law_spread_is_kept(queue: Seq<TaskControlBlock>)
    requires
        queue_wf(queue),
        queue.len() > 0,
        within_big_stride(strides_of(queue)),
    ensures
        queue_wf(after_fetch(queue).push(dispatched(queue).unwrap())),
        within_big_stride(strides_of(after_fetch(queue).push(dispatched(queue).unwrap()))),
{
    law_fetch_removes_only_the_dispatched(queue);
    let strides = strides_of(queue);
    let base = choose|base: u64| fits_window(strides, base, big_stride_window());
    assert(fits_window(strides, base, half_range()));
    lemma_scan_choice_nearest(strides, base, strides.len() as int);
    let idx = next_index(queue);
    let winner = queue[idx];
    let next = after_fetch(queue).push(winner.charged());
    let next_strides = strides_of(next);
    let start = strides[idx];
    assert forall|j: int| 0 <= j < next_strides.len() implies forward_distance(
        start,
        #[trigger] next_strides[j],
    ) < big_stride_window() by {
        if j < next.len() - 1 {
            let j0 = if j < idx { j } else { j + 1 };
            assert(next_strides[j] == strides[j0]);
            lemma_distance_from_inside(base, start, strides[j0]);
        } else {
            assert(next_strides[j] == advanced(start, winner.priority));
            lemma_charge_is_one_pass(start, winner.priority);
        }
    }
    assert(fits_window(next_strides, start, big_stride_window()));
}

/// The queue after `rounds` slots, in each of which the next task was
/// fetched, charged, and added again at the back.
pub open spec fn after_rounds(queue: Seq<TaskControlBlock>, rounds: nat) -> Seq<
    TaskControlBlock,
>
    decreases rounds,
{
    if rounds == 0 || queue.len() == 0 {
        queue
    } else {
        after_rounds(after_fetch(queue).push(dispatched(queue).unwrap()), (rounds - 1) as nat)
    }
}

/// However long the queued tasks take turns, the queue stays well
/// formed, holds as many tasks as before, and its strides stay within
/// `BIG_STRIDE` of each other, so that every fetch on the way selects
/// the first task of minimal stride.
pub proof fn law_spread_is_kept_over_rounds(queue: Seq<TaskControlBlock>, rounds: nat)
    requires
        queue_wf(queue),
        within_big_stride(strides_of(queue)),
    ensures
        queue_wf(after_rounds(queue, rounds)),
        after_rounds(queue, rounds).len() == queue.len(),
        within_big_stride(strides_of(after_rounds(queue, rounds))),
        within_half_range(strides_of(after_rounds(queue, rounds))),
    decreases rounds,
{
    if rounds == 0 || queue.len() == 0 {
        law_big_stride_fits_half_range(strides_of(queue));
    } else {
        law_spread_is_kept(queue);
        law_fetch_removes_only_the_dispatched(queue);
        law_spread_is_kept_over_rounds(
            after_fetch(queue).push(dispatched(queue).unwrap()),
            (rounds - 1) as nat,
        );
    }
}

} // verus!
