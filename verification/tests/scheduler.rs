use stride_scheduler::{add_task, fetch_task, TaskControlBlock, TaskManager, BIG_STRIDE};

fn task(pid: usize, priority: u64, stride: u64) -> TaskControlBlock {
    TaskControlBlock { pid, priority, stride }
}

#[test]
fn new_manager_is_empty() {
    let manager = TaskManager::new();
    assert_eq!(manager.len(), 0);
    assert!(manager.is_empty());
    assert!(!manager.contains(0));
}

#[test]
fn fetch_on_empty_queue_returns_none() {
    let mut manager = TaskManager::new();
    assert_eq!(manager.fetch(), None);
    assert_eq!(manager.len(), 0);
    assert_eq!(manager.fetch(), None);
    assert!(manager.is_empty());
}

#[test]
fn length_equals_number_of_adds() {
    let mut manager = TaskManager::new();
    for pid in 0..25usize {
        assert_eq!(manager.len(), pid);
        assert!(!manager.contains(pid));
        manager.add(task(pid, 1 + pid as u64, 0));
        assert!(manager.contains(pid));
    }
    assert_eq!(manager.len(), 25);
    assert!(!manager.is_empty());
}

#[test]
fn equal_stride_tasks_leave_in_the_order_of_their_adds() {
    let mut manager = TaskManager::new();
    let pids = [7usize, 3, 9, 1, 4];
    for pid in pids {
        manager.add(task(pid, 2, 500));
    }
    for pid in pids {
        let fetched = manager.fetch().unwrap();
        assert_eq!(fetched.pid, pid);
    }
    assert_eq!(manager.fetch(), None);
}

#[test]
fn fetch_returns_the_task_of_least_stride() {
    let mut manager = TaskManager::new();
    manager.add(task(1, 4, 300));
    manager.add(task(2, 4, 100));
    manager.add(task(3, 4, 200));
    let fetched = manager.fetch().unwrap();
    assert_eq!(fetched.pid, 2);
    assert_eq!(fetched.priority, 4);
    assert_eq!(fetched.stride, 100 + 536_870_911);
}

#[test]
fn fetch_removes_the_selected_task_and_no_other() {
    let mut manager = TaskManager::new();
    manager.add(task(1, 4, 300));
    manager.add(task(2, 4, 100));
    manager.add(task(3, 4, 200));
    manager.add(task(4, 4, 250));
    assert_eq!(manager.fetch().unwrap().pid, 2);
    assert_eq!(manager.len(), 3);
    assert!(manager.contains(1));
    assert!(!manager.contains(2));
    assert!(manager.contains(3));
    assert!(manager.contains(4));
    // The others keep their strides and their order.
    assert_eq!(manager.fetch(), Some(task(3, 4, 200 + 536_870_911)));
    assert_eq!(manager.fetch(), Some(task(4, 4, 250 + 536_870_911)));
    assert_eq!(manager.fetch(), Some(task(1, 4, 300 + 536_870_911)));
    assert_eq!(manager.fetch(), None);
}

#[test]
fn fetch_charges_big_stride_over_priority() {
    let mut manager = TaskManager::new();
    manager.add(task(1, 10, 0));
    assert_eq!(manager.fetch(), Some(task(1, 10, 214_748_364)));
    manager.add(task(2, 1, 17));
    assert_eq!(manager.fetch(), Some(task(2, 1, 17 + 2_147_483_647)));
    manager.add(task(3, 3, 1_000));
    assert_eq!(manager.fetch(), Some(task(3, 3, 1_000 + BIG_STRIDE / 3)));
}

#[test]
fn fetch_wraps_the_stride_at_the_top_of_the_range() {
    let mut manager = TaskManager::new();
    manager.add(task(1, 1, u64::MAX));
    assert_eq!(manager.fetch(), Some(task(1, 1, 2_147_483_646)));
}

#[test]
fn add_then_fetch_round_trip() {
    let mut manager = TaskManager::new();
    let t = task(42, 8, 12_345);
    manager.add(t);
    let fetched = manager.fetch().unwrap();
    assert_eq!(fetched.pid, t.pid);
    assert_eq!(fetched.priority, t.priority);
    assert_eq!(fetched.stride, 12_345 + 268_435_455);
    assert!(manager.is_empty());
    assert_eq!(manager.fetch(), None);
}

#[test]
fn fairness_of_two_tasks() {
    let mut manager = TaskManager::new();
    manager.add(task(1, 10, 0));
    manager.add(task(2, 5, 0));
    // Tie at stride 0: the first in the queue wins.
    let a = manager.fetch().unwrap();
    assert_eq!(a, task(1, 10, BIG_STRIDE / 10));
    assert_eq!(a.stride, 214_748_364);
    // The first task is runnable again, now with a positive stride.
    manager.add(a);
    let b = manager.fetch().unwrap();
    assert_eq!(b, task(2, 5, BIG_STRIDE / 5));
    assert_eq!(b.stride, 429_496_729);
    assert_eq!(manager.len(), 1);
    assert!(manager.contains(1));
}

#[test]
fn fairness_second_fetch_without_requeue() {
    let mut manager = TaskManager::new();
    manager.add(task(1, 10, 0));
    manager.add(task(2, 5, 0));
    assert_eq!(manager.fetch().unwrap().pid, 1);
    assert_eq!(manager.fetch().unwrap().pid, 2);
    assert_eq!(manager.fetch(), None);
}

#[test]
fn slots_are_shared_in_proportion_to_priority() {
    let mut manager = TaskManager::new();
    manager.add(task(1, 10, 0));
    manager.add(task(2, 5, 0));
    let mut slots = [0u32; 3];
    for _ in 0..300 {
        let running = manager.fetch().unwrap();
        slots[running.pid] += 1;
        manager.add(running);
    }
    assert_eq!(slots[1] + slots[2], 300);
    assert!(slots[1] >= 199 && slots[1] <= 201);
    assert!(slots[2] >= 99 && slots[2] <= 101);
}

#[test]
fn spread_of_strides_stays_within_big_stride() {
    let mut manager = TaskManager::new();
    let priorities = [1u64, 2, 3, 7, 16, 100];
    for (pid, priority) in priorities.iter().enumerate() {
        manager.add(task(pid, *priority, u64::MAX - 1_000));
    }
    let mut strides = [u64::MAX - 1_000; 6];
    for _ in 0..2_000 {
        let running = manager.fetch().unwrap();
        strides[running.pid] = running.stride;
        manager.add(running);
        for a in strides {
            for b in strides {
                let ahead = a.wrapping_sub(b);
                let behind = b.wrapping_sub(a);
                assert!(ahead <= BIG_STRIDE || behind <= BIG_STRIDE);
            }
        }
    }
}

#[test]
fn wraparound_task_near_the_top_is_behind_one_near_zero() {
    let mut manager = TaskManager::new();
    manager.add(task(1, 2, 3));
    manager.add(task(2, 2, u64::MAX - 5));
    let fetched = manager.fetch().unwrap();
    assert_eq!(fetched.pid, 2);
    assert_eq!(fetched.stride, (u64::MAX - 5).wrapping_add(1_073_741_823));
    assert_eq!(fetched.stride, 1_073_741_817);
    assert_eq!(manager.fetch().unwrap().pid, 1);
}

#[test]
fn wraparound_holds_in_either_queue_order() {
    let mut manager = TaskManager::new();
    manager.add(task(2, 2, u64::MAX - 5));
    manager.add(task(1, 2, 3));
    assert_eq!(manager.fetch().unwrap().pid, 2);
    assert_eq!(manager.fetch().unwrap().pid, 1);
}

#[test]
fn scan_outside_a_half_range_window_follows_the_running_minimum() {
    // Three strides a third of the range apart: each is before the next
    // one around the range, so the scan ends on the last entry.
    let third: u64 = u64::MAX / 3;
    let mut manager = TaskManager::new();
    manager.add(task(1, 1, 2 * third));
    manager.add(task(2, 1, third));
    manager.add(task(3, 1, 0));
    assert_eq!(manager.fetch().unwrap().pid, 3);

    // Exactly half the range apart, the later entry counts as before.
    let mut manager = TaskManager::new();
    manager.add(task(1, 1, 0));
    manager.add(task(2, 1, 1u64 << 63));
    manager.add(task(3, 1, 0));
    assert_eq!(manager.fetch().unwrap().pid, 3);
}

#[test]
fn contains_finds_only_queued_tasks() {
    let mut manager = TaskManager::new();
    manager.add(task(5, 1, 0));
    manager.add(task(6, 1, 10));
    assert!(manager.contains(5));
    assert!(manager.contains(6));
    assert!(!manager.contains(7));
    assert_eq!(manager.fetch().unwrap().pid, 5);
    assert!(!manager.contains(5));
    assert!(manager.contains(6));
}

#[test]
fn free_functions_act_on_the_given_manager() {
    let mut manager = TaskManager::new();
    assert_eq!(fetch_task(&mut manager), None);
    add_task(&mut manager, task(1, 10, 0));
    add_task(&mut manager, task(2, 5, 0));
    assert_eq!(manager.len(), 2);
    assert_eq!(fetch_task(&mut manager), Some(task(1, 10, 214_748_364)));
    assert_eq!(fetch_task(&mut manager), Some(task(2, 5, 429_496_729)));
    assert_eq!(fetch_task(&mut manager), None);
}
