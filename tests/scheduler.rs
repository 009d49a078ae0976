use os::config::{BIG_STRIDE, DEFAULT_PRIORITY};
use os::mm::MemorySet;
use os::task::manager::TaskManager as ReadyQueue;
use os::task::{TaskControlBlock, TaskManager, TaskStatus, TaskSwitch};

fn manager_with(n: usize) -> TaskManager {
    let mut tasks = Vec::new();
    for pid in 0..n {
        tasks.push(TaskControlBlock::new(pid, MemorySet::new_bare()));
    }
    TaskManager::new(tasks)
}

#[test]
fn new_task_defaults() {
    let t = TaskControlBlock::new(7, MemorySet::new_bare());
    assert_eq!(t.getpid(), 7);
    assert_eq!(t.task_status, TaskStatus::Ready);
    assert_eq!(t.stride, 0);
    assert_eq!(t.pass, BIG_STRIDE / DEFAULT_PRIORITY);
    assert_eq!(t.fd_table.len(), 3);
    assert!(t.fd_table.iter().all(|s| s.is_some()));
}

#[test]
fn stride_two_tasks_three_rounds() {
    let mut tm = manager_with(2);
    tm.tasks[0].pass = 10;
    tm.tasks[1].pass = 20;
    let mut runs = [0usize; 2];
    let first = tm.run_first_task().unwrap();
    assert_eq!(first, 0);
    runs[first] += 1;
    let sw = tm.suspend_current_and_run_next().unwrap();
    assert_eq!(sw, TaskSwitch { from: 0, to: 1 });
    runs[sw.to] += 1;
    let sw = tm.suspend_current_and_run_next().unwrap();
    assert_eq!(sw, TaskSwitch { from: 1, to: 0 });
    runs[sw.to] += 1;
    assert_eq!(runs, [2, 1]);
    assert_eq!(tm.tasks[0].stride, 20);
    assert_eq!(tm.tasks[1].stride, 20);
    assert_eq!(tm.tasks[0].task_status, TaskStatus::Running);
    assert_eq!(tm.tasks[1].task_status, TaskStatus::Ready);
    assert_eq!(tm.current_task, 0);
}

#[test]
fn stride_share_follows_inverse_pass() {
    let mut tm = manager_with(2);
    tm.tasks[0].pass = 10;
    tm.tasks[1].pass = 30;
    let mut runs = [0usize; 2];
    runs[tm.run_first_task().unwrap()] += 1;
    for _ in 0..399 {
        let sw = tm.suspend_current_and_run_next().unwrap();
        runs[sw.to] += 1;
    }
    assert_eq!(runs[0] + runs[1], 400);
    assert_eq!(runs, [300, 100]);
}

#[test]
fn find_next_breaks_ties_by_index() {
    let tm = manager_with(3);
    assert_eq!(tm.find_next_task(), Some(0));
}

#[test]
fn find_next_skips_tasks_not_ready() {
    let mut tm = manager_with(3);
    tm.tasks[0].task_status = TaskStatus::Exited;
    tm.tasks[1].stride = 5;
    tm.tasks[2].stride = 9;
    assert_eq!(tm.find_next_task(), Some(1));
    tm.tasks[1].task_status = TaskStatus::UnInit;
    assert_eq!(tm.find_next_task(), Some(2));
    tm.tasks[2].task_status = TaskStatus::Exited;
    assert_eq!(tm.find_next_task(), None);
}

#[test]
fn exit_last_task_leaves_nothing_to_run() {
    let mut tm = manager_with(1);
    assert_eq!(tm.run_first_task(), Some(0));
    assert_eq!(tm.exit_current_and_run_next(), None);
    assert_eq!(tm.tasks[0].task_status, TaskStatus::Exited);
}

#[test]
fn exit_switches_to_other_task() {
    let mut tm = manager_with(2);
    assert_eq!(tm.run_first_task(), Some(0));
    assert_eq!(tm.exit_current_and_run_next(), Some(TaskSwitch { from: 0, to: 1 }));
    assert_eq!(tm.tasks[0].task_status, TaskStatus::Exited);
    assert_eq!(tm.tasks[1].task_status, TaskStatus::Running);
}

#[test]
fn mark_current_suspended_and_exited() {
    let mut tm = manager_with(2);
    tm.run_first_task();
    tm.mark_current_suspended();
    assert_eq!(tm.tasks[0].task_status, TaskStatus::Ready);
    tm.mark_current_exited();
    assert_eq!(tm.tasks[0].task_status, TaskStatus::Exited);
    assert_eq!(tm.run_next_task(), Some(TaskSwitch { from: 0, to: 1 }));
}

#[test]
fn set_priority_rejects_small_values() {
    let mut tm = manager_with(1);
    let before = tm.tasks[0].pass;
    assert_eq!(tm.set_priority(1), -1);
    assert_eq!(tm.set_priority(0), -1);
    assert_eq!(tm.set_priority(-5), -1);
    assert_eq!(tm.tasks[0].pass, before);
}

#[test]
fn set_priority_sets_pass() {
    let mut tm = manager_with(1);
    assert_eq!(tm.set_priority(2), 2);
    assert_eq!(tm.tasks[0].pass, BIG_STRIDE / 2);
    assert_eq!(tm.set_priority(1000), 1000);
    assert_eq!(tm.tasks[0].pass, BIG_STRIDE / 1000);
    assert_eq!(tm.set_priority(isize::MAX), isize::MAX);
    assert_eq!(tm.tasks[0].pass, 1);
}

#[test]
fn ready_queue_is_fifo() {
    let mut q = ReadyQueue::new();
    assert!(q.fetch().is_none());
    q.add(TaskControlBlock::new(3, MemorySet::new_bare()));
    q.add(TaskControlBlock::new(5, MemorySet::new_bare()));
    assert_eq!(q.get_task_by_pid(5).map(|t| t.pid), Some(5));
    assert!(q.get_task_by_pid(9).is_none());
    assert_eq!(q.fetch().map(|t| t.pid), Some(3));
    assert_eq!(q.fetch().map(|t| t.pid), Some(5));
    assert!(q.fetch().is_none());
}

#[test]
fn outgoing_task_is_charged_before_choosing() {
    let mut tm = manager_with(2);
    assert_eq!(tm.run_first_task(), Some(0));
    tm.tasks[0].stride = 10;
    tm.tasks[0].pass = 10;
    tm.tasks[1].stride = 15;
    tm.tasks[1].pass = 100;
    let sw = tm.suspend_current_and_run_next().unwrap();
    assert_eq!(sw, TaskSwitch { from: 0, to: 1 });
    assert_eq!(tm.tasks[0].stride, 20);
    assert_eq!(tm.tasks[1].stride, 15);
    assert_eq!(tm.tasks[0].task_status, TaskStatus::Ready);
    assert_eq!(tm.tasks[1].task_status, TaskStatus::Running);
}

#[test]
fn only_task_runs_again_after_charge() {
    let mut tm = manager_with(1);
    tm.tasks[0].pass = 7;
    assert_eq!(tm.run_first_task(), Some(0));
    assert_eq!(tm.tasks[0].stride, 7);
    let sw = tm.suspend_current_and_run_next().unwrap();
    assert_eq!(sw, TaskSwitch { from: 0, to: 0 });
    assert_eq!(tm.tasks[0].stride, 14);
    assert_eq!(tm.tasks[0].task_status, TaskStatus::Running);
}

#[test]
fn new_priority_sets_next_charge() {
    let mut tm = manager_with(2);
    tm.run_first_task();
    let before = tm.tasks[0].stride;
    assert_eq!(tm.set_priority(4), 4);
    tm.suspend_current_and_run_next().unwrap();
    assert_eq!(tm.tasks[0].stride, before + (BIG_STRIDE / 4) as u128);
    let pass_b = tm.tasks[1].pass;
    let before_b = tm.tasks[1].stride;
    assert_eq!(tm.set_priority(1), -1);
    tm.suspend_current_and_run_next().unwrap();
    assert_eq!(tm.tasks[1].stride, before_b + pass_b as u128);
}
