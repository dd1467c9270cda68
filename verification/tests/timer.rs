use task_context::config::Config;
use task_context::timer::{install_timer_handler, timer_handler, Core, Gate, TimerOp, Waiter};

fn config() -> Config {
    Config {
        default_stack_size: 0x8000,
        kernel_stack_size: 0x4000,
        task_entry: 0x20_1000,
        leave_task: 0x20_2000,
        timer_vector: 123,
    }
}

fn core_with(waiters: &[(u32, Option<u64>)]) -> Core {
    let mut core = Core::new();
    for (task, wakeup) in waiters {
        core.block(Waiter { task: *task, wakeup: *wakeup });
    }
    core
}

fn tick(core: &mut Core, now: u64) {
    core.raise();
    core.run(&timer_handler(), now);
}

#[test]
fn timer_gate_names_the_timer_vector() {
    assert_eq!(
        install_timer_handler(&config(), 0x20_3000),
        Gate { vector: 123, handler: 0x20_3000, flags: 0 }
    );
}

#[test]
fn handler_wakes_acknowledges_and_reschedules() {
    assert_eq!(
        timer_handler(),
        vec![
            TimerOp::LockBlockedTasks,
            TimerOp::HandleWaitingTasks,
            TimerOp::UnlockBlockedTasks,
            TimerOp::EndOfInterrupt,
            TimerOp::Reschedule,
        ]
    );
}

#[test]
fn new_core_is_idle() {
    let core = Core::new();
    assert_eq!(core.blocked(), vec![]);
    assert_eq!(core.ready(), vec![]);
    assert!(!core.locked());
    assert!(!core.pending());
    assert!(!core.rescheduled());
    assert!(!core.faulted());
}

#[test]
fn raise_marks_the_interrupt_pending() {
    let mut core = Core::new();
    core.perform(TimerOp::Reschedule, 0);
    assert!(core.rescheduled());
    core.raise();
    assert!(core.pending());
    assert!(!core.rescheduled());
}

#[test]
fn tick_wakes_the_tasks_that_are_due() {
    let mut core = core_with(&[(4, Some(10)), (5, Some(5)), (6, None), (7, Some(7)), (8, Some(8))]);
    tick(&mut core, 7);
    assert_eq!(core.ready(), vec![5, 7]);
    assert_eq!(
        core.blocked(),
        vec![
            Waiter { task: 4, wakeup: Some(10) },
            Waiter { task: 6, wakeup: None },
            Waiter { task: 8, wakeup: Some(8) },
        ]
    );
    assert!(!core.pending());
    assert!(core.rescheduled());
    assert!(!core.locked());
    assert!(!core.faulted());

    tick(&mut core, u64::MAX);
    assert_eq!(core.ready(), vec![5, 7, 4, 8]);
    assert_eq!(core.blocked(), vec![Waiter { task: 6, wakeup: None }]);
}

#[test]
fn tick_with_nothing_due_changes_no_queue() {
    let mut core = core_with(&[(4, Some(10)), (6, None)]);
    tick(&mut core, 9);
    assert_eq!(core.ready(), vec![]);
    assert_eq!(
        core.blocked(),
        vec![Waiter { task: 4, wakeup: Some(10) }, Waiter { task: 6, wakeup: None }]
    );
    assert!(!core.pending());
    assert!(core.rescheduled());
}

#[test]
fn lock_is_held_for_the_waking_alone() {
    let mut core = core_with(&[(1, Some(0)), (2, None)]);
    core.raise();
    let ops = timer_handler();

    core.perform(ops[0], 0);
    assert!(core.locked());
    assert_eq!(core.ready(), vec![]);
    assert_eq!(core.blocked().len(), 2);

    core.perform(ops[1], 0);
    assert!(core.locked());
    assert_eq!(core.ready(), vec![1]);
    assert_eq!(core.blocked(), vec![Waiter { task: 2, wakeup: None }]);
    assert!(core.pending());

    core.perform(ops[2], 0);
    assert!(!core.locked());
    assert!(core.pending());
    assert!(!core.rescheduled());

    core.perform(ops[3], 0);
    assert!(!core.locked());
    assert!(!core.pending());
    assert!(!core.rescheduled());

    core.perform(ops[4], 0);
    assert!(!core.locked());
    assert!(core.rescheduled());
    assert!(!core.faulted());
    assert_eq!(core.ready(), vec![1]);
    assert_eq!(core.blocked(), vec![Waiter { task: 2, wakeup: None }]);
}

#[test]
fn waking_without_the_lock_faults() {
    let mut core = core_with(&[(1, Some(0))]);
    core.perform(TimerOp::HandleWaitingTasks, 5);
    assert!(core.faulted());
    assert_eq!(core.ready(), vec![]);
    assert_eq!(core.blocked(), vec![Waiter { task: 1, wakeup: Some(0) }]);
}

#[test]
fn lock_cannot_be_taken_twice_or_given_back_free() {
    let mut core = Core::new();
    core.perform(TimerOp::LockBlockedTasks, 0);
    assert!(core.locked());
    assert!(!core.faulted());
    core.perform(TimerOp::LockBlockedTasks, 0);
    assert!(core.faulted());

    let mut core = Core::new();
    core.perform(TimerOp::UnlockBlockedTasks, 0);
    assert!(core.faulted());
    assert!(!core.locked());
}

#[test]
fn rescheduling_under_the_lock_faults() {
    let mut core = Core::new();
    core.perform(TimerOp::LockBlockedTasks, 0);
    core.perform(TimerOp::Reschedule, 0);
    assert!(core.faulted());
    assert!(!core.rescheduled());
}

#[test]
fn interrupt_that_finds_the_lock_held_faults() {
    let mut core = core_with(&[(1, Some(0))]);
    core.perform(TimerOp::LockBlockedTasks, 0);
    tick(&mut core, 5);
    assert!(core.faulted());
    assert!(core.locked());
    assert!(core.pending());
    assert!(!core.rescheduled());
    assert_eq!(core.ready(), vec![]);
    assert_eq!(core.blocked(), vec![Waiter { task: 1, wakeup: Some(0) }]);
}

#[test]
fn faulted_core_ignores_further_steps() {
    let mut core = core_with(&[(1, Some(0))]);
    core.perform(TimerOp::UnlockBlockedTasks, 0);
    assert!(core.faulted());
    core.raise();
    core.run(&timer_handler(), 9);
    assert!(!core.locked());
    assert!(core.pending());
    assert!(!core.rescheduled());
    assert_eq!(core.ready(), vec![]);
    core.block(Waiter { task: 3, wakeup: None });
    assert_eq!(core.blocked(), vec![Waiter { task: 1, wakeup: Some(0) }]);
}

#[test]
fn blocking_needs_the_lock_free() {
    let mut core = Core::new();
    core.perform(TimerOp::LockBlockedTasks, 0);
    core.block(Waiter { task: 3, wakeup: None });
    assert!(core.faulted());
    assert_eq!(core.blocked(), vec![]);
}

#[test]
fn interrupt_on_one_core_leaves_the_other_alone() {
    let mut cores = vec![core_with(&[(1, Some(3))]), core_with(&[(2, Some(3)), (3, None)])];
    tick(&mut cores[0], 5);
    assert_eq!(cores[0].ready(), vec![1]);
    assert_eq!(cores[1].ready(), vec![]);
    assert_eq!(
        cores[1].blocked(),
        vec![Waiter { task: 2, wakeup: Some(3) }, Waiter { task: 3, wakeup: None }]
    );
    assert!(!cores[1].pending());
    assert!(!cores[1].rescheduled());
    assert!(!cores[1].locked());
    assert!(!cores[1].faulted());
}

#[test]
fn interrupts_on_two_cores_commute() {
    let build = || vec![core_with(&[(1, Some(3)), (9, Some(8))]), core_with(&[(2, Some(6))])];
    let mut first = build();
    tick(&mut first[0], 5);
    tick(&mut first[1], 7);
    let mut second = build();
    tick(&mut second[1], 7);
    tick(&mut second[0], 5);
    for core in 0..2 {
        assert_eq!(first[core].ready(), second[core].ready());
        assert_eq!(first[core].blocked(), second[core].blocked());
        assert_eq!(first[core].pending(), second[core].pending());
        assert_eq!(first[core].rescheduled(), second[core].rescheduled());
        assert_eq!(first[core].locked(), second[core].locked());
        assert_eq!(first[core].faulted(), second[core].faulted());
    }
    assert_eq!(first[0].ready(), vec![1]);
    assert_eq!(first[1].ready(), vec![2]);
}
