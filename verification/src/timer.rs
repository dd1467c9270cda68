//! The timer interrupt: what the handler does on the core it runs on.

use vstd::prelude::*;
use crate::config::Config;

verus! {

/// An entry of the interrupt descriptor table.
#[derive(Clone, Copy, Debug, PartialEq, Eq, Structural)]
pub struct Gate {
    /// Interrupt vector that the entry serves.
    pub vector: u8,
    /// Address of the handler.
    pub handler: u64,
    /// Privilege flags of the entry.
    pub flags: u8,
}

/// The descriptor-table entry that serves the timer: `handler` on the
/// timer's vector, with no flags set.
pub fn install_timer_handler(cfg: &Config, handler: u64) -> (gate: Gate)
    ensures
        gate == (Gate { vector: cfg.timer_vector, handler, flags: 0 }),
{
    Gate { vector: cfg.timer_vector, handler, flags: 0 }
}

/// One step of the timer handler. Every step acts on the core that the
/// handler runs on, and on no other.
#[derive(Clone, Copy, Debug, PartialEq, Eq, Structural)]
pub enum TimerOp {
    /// Takes the exclusive lock of the core's blocked tasks.
    LockBlockedTasks,
    /// Makes every blocked task whose wait has elapsed ready to run. The
    /// step reads and changes the blocked tasks, so their lock must be held.
    HandleWaitingTasks,
    /// Gives the lock of the core's blocked tasks back.
    UnlockBlockedTasks,
    /// Tells the interrupt controller that the interrupt has been served.
    EndOfInterrupt,
    /// Lets the scheduler of the core pick the task to run next. The step
    /// may resume another task and never come back, so the lock of the
    /// blocked tasks must be free.
    Reschedule,
}

/// The program of the timer handler.
pub open spec fn timer_ops() -> Seq<TimerOp> {
    seq![
        TimerOp::LockBlockedTasks,
        TimerOp::HandleWaitingTasks,
        TimerOp::UnlockBlockedTasks,
        TimerOp::EndOfInterrupt,
        TimerOp::Reschedule,
    ]
}

/// The timer handler: under the lock of the blocked tasks, wake those that
/// are due; then, with the lock given back, acknowledge the interrupt and
/// reschedule.
pub fn timer_handler() -> (ops: Vec<TimerOp>)
    ensures
        ops@ == timer_ops(),
{
    let mut ops: Vec<TimerOp> = Vec::new();
    ops.push(TimerOp::LockBlockedTasks);
    ops.push(TimerOp::HandleWaitingTasks);
    ops.push(TimerOp::UnlockBlockedTasks);
    ops.push(TimerOp::EndOfInterrupt);
    ops.push(TimerOp::Reschedule);
    assert(ops@ =~= timer_ops());
    ops
}

/// A blocked task.
#[derive(Clone, Copy, Debug, PartialEq, Eq)]
pub struct Waiter {
    /// Identity of the task.
    pub task: u32,
    /// Tick at which the wait elapses; `None` for a wait without a limit.
    pub wakeup: Option<u64>,
}

/// Whether the wait of `waiter` has elapsed at tick `now`.
pub open spec fn elapsed(waiter: Waiter, now: u64) -> bool {
    waiter.wakeup matches Some(tick) && tick <= now
}

/// The test for a wait that has elapsed at tick `now`.
pub open spec fn due(now: u64) -> spec_fn(Waiter) -> bool {
    |waiter: Waiter| elapsed(waiter, now)
}

/// The test for a wait that goes on at tick `now`.
pub open spec fn waiting(now: u64) -> spec_fn(Waiter) -> bool {
    |waiter: Waiter| !elapsed(waiter, now)
}

/// The identity of a blocked task.
pub open spec fn task_of() -> spec_fn(Waiter) -> u32 {
    |waiter: Waiter| waiter.task
}

/// What one core keeps for its timer: its blocked tasks and their lock,
/// its tasks that are ready to run, whether a timer interrupt awaits its
/// acknowledgement, and whether the scheduler has run since the last
/// interrupt.
///
/// When a wait has elapsed is for the scheduler to say. The model takes the
/// plainest rule, a tick at which the wait ends, to have queues that the
/// steps of the handler can be seen to change.
pub struct CoreState {
    /// The blocked tasks, in the order in which they blocked.
    pub blocked: Seq<Waiter>,
    /// The tasks that are ready to run, longest ready first.
    pub ready: Seq<u32>,
    /// Whether the lock of the blocked tasks is held.
    pub locked: bool,
    /// Whether a timer interrupt awaits its acknowledgement.
    pub pending: bool,
    /// Whether the scheduler has run since the last interrupt.
    pub rescheduled: bool,
    /// Set by the first step that breaks the rules of the lock; a core in
    /// this state ignores every further step.
    pub faulted: bool,
}

impl CoreState {
    /// A core without tasks, with the lock free and no interrupt to serve.
    pub open spec fn idle() -> CoreState {
        CoreState {
            blocked: Seq::empty(),
            ready: Seq::empty(),
            locked: false,
            pending: false,
            rescheduled: false,
            faulted: false,
        }
    }

    /// The core after a step broke the rules of the lock.
    pub open spec fn fault(self) -> CoreState {
        CoreState { faulted: true, ..self }
    }

    /// The core after the lock of the blocked tasks was taken. Taking a lock
    /// that is held never returns: the core faults.
    pub open spec fn lock(self) -> CoreState {
        if self.locked {
            self.fault()
        } else {
            CoreState { locked: true, ..self }
        }
    }

    /// The core after the lock of the blocked tasks was given back. Only a
    /// lock that is held can be given back.
    pub open spec fn unlock(self) -> CoreState {
        if self.locked {
            CoreState { locked: false, ..self }
        } else {
            self.fault()
        }
    }

    /// The queues after the tasks that are due at tick `now` were woken:
    /// they have left the blocked tasks and joined the ready ones, in the
    /// order in which they were blocked.
    pub open spec fn woken(self, now: u64) -> CoreState {
        CoreState {
            blocked: self.blocked.filter(waiting(now)),
            ready: self.ready + self.blocked.filter(due(now)).map_values(task_of()),
            ..self
        }
    }

    /// The core after the tasks that are due at tick `now` were woken. The
    /// blocked tasks may be read and changed only under their lock: without
    /// it the core faults and the queues stay as they are.
    pub open spec fn wake(self, now: u64) -> CoreState {
        if self.locked {
            self.woken(now)
        } else {
            self.fault()
        }
    }

    /// The core after a task has blocked: under the lock, which must be
    /// free, `waiter` joins the blocked tasks.
    pub open spec fn block(self, waiter: Waiter) -> CoreState {
        if self.faulted {
            self
        } else if self.locked {
            self.fault()
        } else {
            CoreState { blocked: self.blocked.push(waiter), ..self }
        }
    }

    /// The core after the scheduler has run. The scheduler may switch to
    /// another task for good, so the lock of the blocked tasks must not be
    /// held: with it held the core faults.
    pub open spec fn reschedule(self) -> CoreState {
        if self.locked {
            self.fault()
        } else {
            CoreState { rescheduled: true, ..self }
        }
    }

    /// The core after the timer has raised its interrupt.
    pub open spec fn raise(self) -> CoreState {
        CoreState { pending: true, rescheduled: false, ..self }
    }

    /// The core after one step of the handler at tick `now`.
    pub open spec fn step(self, op: TimerOp, now: u64) -> CoreState {
        if self.faulted {
            self
        } else {
            match op {
                TimerOp::LockBlockedTasks => self.lock(),
                TimerOp::HandleWaitingTasks => self.wake(now),
                TimerOp::UnlockBlockedTasks => self.unlock(),
                TimerOp::EndOfInterrupt => CoreState { pending: false, ..self },
                TimerOp::Reschedule => self.reschedule(),
            }
        }
    }

    /// The core after the steps of `ops`, in order, at tick `now`.
    pub open spec fn run(self, ops: Seq<TimerOp>, now: u64) -> CoreState
        decreases ops.len(),
    {
        if ops.len() == 0 {
            self
        } else {
            self.run(ops.drop_last(), now).step(ops.last(), now)
        }
    }

    /// The core after a timer interrupt at tick `now` was raised and served.
    pub open spec fn tick(self, now: u64) -> CoreState {
        self.raise().run(timer_ops(), now)
    }
}

/// The cores after a timer interrupt on core `core` at tick `now`.
pub open spec fn tick_on(cores: Seq<CoreState>, core: int, now: u64) -> Seq<CoreState> {
    cores.update(core, cores[core].tick(now))
}

/// Running a program with one more step at its end is running the program
/// and then that step.
pub proof fn lemma_timer_run_push(core: CoreState, ops: Seq<TimerOp>, op: TimerOp, now: u64)
    ensures
        core.run(ops.push(op), now) == core.run(ops, now).step(op, now),
{
    assert(ops.push(op).drop_last() =~= ops);
}

/// The lock over the course of the handler. On a core whose lock is free,
/// the handler takes the lock in its first step and in no other, wakes the
/// due tasks while it holds the lock, and gives the lock back in its third
/// step and in no other. The lock is therefore free before the interrupt
/// is acknowledged and before the scheduler runs, and stays free whether or
/// not the scheduler ever returns to the handler. No step faults.
pub proof fn lemma_handler_lock(core: CoreState, now: u64)
    requires
        !core.locked,
        !core.faulted,
    ensures
        ({
            let start = core.raise();
            let ops = timer_ops();
            &&& forall|i: int|
                0 <= i < ops.len() ==> (ops[i] == TimerOp::LockBlockedTasks <==> i == 0)
            &&& forall|i: int|
                0 <= i < ops.len() ==> (ops[i] == TimerOp::UnlockBlockedTasks <==> i == 2)
            &&& start.run(ops.take(1), now) == (CoreState { locked: true, ..start })
            &&& start.run(ops.take(2), now) == (CoreState { locked: true, ..start.woken(now) })
            &&& start.run(ops.take(3), now) == start.woken(now)
            &&& start.run(ops.take(4), now) == (CoreState { pending: false, ..start.woken(now) })
            &&& start.run(ops.take(5), now) == (CoreState {
                pending: false,
                rescheduled: true,
                ..start.woken(now)
            })
            &&& !start.woken(now).locked
            &&& !start.woken(now).faulted
        }),
{
    let start = core.raise();
    let ops0 = Seq::<TimerOp>::empty();
    let ops1 = ops0.push(TimerOp::LockBlockedTasks);
    let ops2 = ops1.push(TimerOp::HandleWaitingTasks);
    let ops3 = ops2.push(TimerOp::UnlockBlockedTasks);
    let ops4 = ops3.push(TimerOp::EndOfInterrupt);
    let ops5 = ops4.push(TimerOp::Reschedule);
    assert(timer_ops() =~= ops5);
    assert(timer_ops().take(1) =~= ops1);
    assert(timer_ops().take(2) =~= ops2);
    assert(timer_ops().take(3) =~= ops3);
    assert(timer_ops().take(4) =~= ops4);
    assert(timer_ops().take(5) =~= ops5);
    assert(start.run(ops0, now) == start);
    lemma_timer_run_push(start, ops0, TimerOp::LockBlockedTasks, now);
    lemma_timer_run_push(start, ops1, TimerOp::HandleWaitingTasks, now);
    lemma_timer_run_push(start, ops2, TimerOp::UnlockBlockedTasks, now);
    lemma_timer_run_push(start, ops3, TimerOp::EndOfInterrupt, now);
    lemma_timer_run_push(start, ops4, TimerOp::Reschedule, now);
}

/// What a timer interrupt does to a core whose lock is free: the tasks
/// that are due are ready, the others are still blocked, the lock is free
/// again, the interrupt is acknowledged and the scheduler has run.
pub proof fn lemma_tick(core: CoreState, now: u64)
    requires
        !core.locked,
        !core.faulted,
    ensures
        core.tick(now) == (CoreState {
            blocked: core.blocked.filter(waiting(now)),
            ready: core.ready + core.blocked.filter(due(now)).map_values(task_of()),
            locked: false,
            pending: false,
            rescheduled: true,
            faulted: false,
        }),
{
    lemma_handler_lock(core, now);
    assert(timer_ops().take(5) =~= timer_ops());
}

/// A timer interrupt that finds the lock of the blocked tasks held cannot
/// take it: the core faults in the first step of the handler, and the
/// queues are as they were.
pub proof fn lemma_tick_on_held_lock(core: CoreState, now: u64)
    requires
        core.locked,
        !core.faulted,
    ensures
        core.tick(now) == core.raise().fault(),
{
    let start = core.raise();
    let ops0 = Seq::<TimerOp>::empty();
    let ops1 = ops0.push(TimerOp::LockBlockedTasks);
    let ops2 = ops1.push(TimerOp::HandleWaitingTasks);
    let ops3 = ops2.push(TimerOp::UnlockBlockedTasks);
    let ops4 = ops3.push(TimerOp::EndOfInterrupt);
    let ops5 = ops4.push(TimerOp::Reschedule);
    assert(timer_ops() =~= ops5);
    assert(start.run(ops0, now) == start);
    lemma_timer_run_push(start, ops0, TimerOp::LockBlockedTasks, now);
    lemma_timer_run_push(start, ops1, TimerOp::HandleWaitingTasks, now);
    lemma_timer_run_push(start, ops2, TimerOp::UnlockBlockedTasks, now);
    lemma_timer_run_push(start, ops3, TimerOp::EndOfInterrupt, now);
    lemma_timer_run_push(start, ops4, TimerOp::Reschedule, now);
}

/// The queues change only under the lock. Whatever step is performed on
/// whatever core, if the blocked or the ready tasks are not what they were,
/// then the step was the waking of the due tasks and the lock was held when
/// it was performed. The scheduler runs only with the lock free: a step
/// that reschedules with the lock held faults and does not reschedule.
pub proof fn lemma_queues_change_under_lock(core: CoreState, op: TimerOp, now: u64)
    ensures
        (core.step(op, now).blocked != core.blocked || core.step(op, now).ready != core.ready)
            ==> (core.locked && !core.faulted && op == TimerOp::HandleWaitingTasks),
        (op == TimerOp::Reschedule && core.locked) ==> core.step(op, now).rescheduled
            == core.rescheduled,
        (op == TimerOp::Reschedule && !core.faulted && !core.step(op, now).faulted)
            ==> !core.locked,
{
}

/// Timer interrupts keep to their core. An interrupt on one core leaves
/// every other core as it was, queues and lock alike; what it does to its
/// own core depends on that core alone; and interrupts on two different
/// cores give the same cores in whichever order they are served.
pub proof fn lemma_cores_are_independent(
    cores: Seq<CoreState>,
    others: Seq<CoreState>,
    a: int,
    b: int,
    now_a: u64,
    now_b: u64,
)
    requires
        0 <= a < cores.len(),
        0 <= b < cores.len(),
        a != b,
        others.len() == cores.len(),
        others[a] == cores[a],
    ensures
        forall|c: int| 0 <= c < cores.len() && c != a ==> tick_on(cores, a, now_a)[c] == cores[c],
        tick_on(cores, a, now_a)[a] == tick_on(others, a, now_a)[a],
        tick_on(tick_on(cores, a, now_a), b, now_b) == tick_on(
            tick_on(cores, b, now_b),
            a,
            now_a,
        ),
{
    assert(tick_on(tick_on(cores, a, now_a), b, now_b) =~= tick_on(
        tick_on(cores, b, now_b),
        a,
        now_a,
    ));
}

/// Filtering a sequence with one more element at its end.
proof fn lemma_filter_push(waiters: Seq<Waiter>, waiter: Waiter, test: spec_fn(Waiter) -> bool)
    ensures
        waiters.push(waiter).filter(test) == if test(waiter) {
            waiters.filter(test).push(waiter)
        } else {
            waiters.filter(test)
        },
{
    reveal(Seq::filter);
    assert(waiters.push(waiter).drop_last() =~= waiters);
}

/// An executable core. Its state is its view.
pub struct Core {
    blocked: Vec<Waiter>,
    ready: Vec<u32>,
    locked: bool,
    pending: bool,
    rescheduled: bool,
    faulted: bool,
}

impl View for Core {
    type V = CoreState;

    closed spec fn view(&self) -> CoreState {
        CoreState {
            blocked: self.blocked@,
            ready: self.ready@,
            locked: self.locked,
            pending: self.pending,
            rescheduled: self.rescheduled,
            faulted: self.faulted,
        }
    }
}

impl Core {
    /// A core without tasks, with the lock free and no interrupt to serve.
    pub fn new() -> (core: Core)
        ensures
            core@ == CoreState::idle(),
    {
        Core {
            blocked: Vec::new(),
            ready: Vec::new(),
            locked: false,
            pending: false,
            rescheduled: false,
            faulted: false,
        }
    }

    /// Blocks a task: under the lock, `waiter` joins the blocked tasks.
    pub fn block(&mut self, waiter: Waiter)
        ensures
            final(self)@ == old(self)@.block(waiter),
    {
        if self.faulted {
            return;
        }
        if self.locked {
            self.faulted = true;
        } else {
            self.blocked.push(waiter);
        }
    }

    /// The timer raises its interrupt on the core.
    pub fn raise(&mut self)
        ensures
            final(self)@ == old(self)@.raise(),
    {
        self.pending = true;
        self.rescheduled = false;
    }

    /// The blocked tasks of the core, in the order in which they blocked.
    pub fn blocked(&self) -> (blocked: Vec<Waiter>)
        ensures
            blocked@ == self@.blocked,
    {
        let mut blocked: Vec<Waiter> = Vec::new();
        let mut i: usize = 0;
        while i < self.blocked.len()
            invariant
                i <= self.blocked.len(),
                blocked@ =~= self.blocked@.subrange(0, i as int),
            decreases self.blocked.len() - i,
        {
            blocked.push(self.blocked[i]);
            i += 1;
        }
        assert(blocked@ =~= self.blocked@);
        blocked
    }

    /// The tasks of the core that are ready to run, longest ready first.
    pub fn ready(&self) -> (ready: Vec<u32>)
        ensures
            ready@ == self@.ready,
    {
        let mut ready: Vec<u32> = Vec::new();
        let mut i: usize = 0;
        while i < self.ready.len()
            invariant
                i <= self.ready.len(),
                ready@ =~= self.ready@.subrange(0, i as int),
            decreases self.ready.len() - i,
        {
            ready.push(self.ready[i]);
            i += 1;
        }
        assert(ready@ =~= self.ready@);
        ready
    }

    /// Whether the lock of the blocked tasks is held.
    pub fn locked(&self) -> (locked: bool)
        ensures
            locked == self@.locked,
    {
        self.locked
    }

    /// Whether a step has broken the rules of the lock.
    pub fn faulted(&self) -> (faulted: bool)
        ensures
            faulted == self@.faulted,
    {
        self.faulted
    }

    /// Whether a timer interrupt awaits its acknowledgement.
    pub fn pending(&self) -> (pending: bool)
        ensures
            pending == self@.pending,
    {
        self.pending
    }

    /// Whether the scheduler has run since the last interrupt.
    pub fn rescheduled(&self) -> (rescheduled: bool)
        ensures
            rescheduled == self@.rescheduled,
    {
        self.rescheduled
    }

    /// Wakes the tasks that are due at tick `now`.
    fn wake(&mut self, now: u64)
        ensures
            final(self)@ == old(self)@.woken(now),
    {
        let mut kept: Vec<Waiter> = Vec::new();
        let mut i: usize = 0;
        while i < self.blocked.len()
            invariant
                i <= self.blocked.len(),
                self.blocked == old(self).blocked,
                self.locked == old(self).locked,
                self.pending == old(self).pending,
                self.rescheduled == old(self).rescheduled,
                self.faulted == old(self).faulted,
                kept@ == self.blocked@.take(i as int).filter(waiting(now)),
                self.ready@ == old(self).ready@ + self.blocked@.take(i as int).filter(
                    due(now),
                ).map_values(task_of()),
            decreases self.blocked.len() - i,
        {
            let waiter: Waiter = self.blocked[i];
            proof {
                let seen = self.blocked@.take(i as int);
                assert(self.blocked@.take(i + 1) =~= seen.push(waiter));
                lemma_filter_push(seen, waiter, waiting(now));
                lemma_filter_push(seen, waiter, due(now));
                if elapsed(waiter, now) {
                    assert(seen.filter(due(now)).push(waiter).map_values(task_of())
                        =~= seen.filter(due(now)).map_values(task_of()).push(waiter.task));
                    assert((old(self).ready@ + seen.filter(due(now)).map_values(task_of())).push(
                        waiter.task,
                    ) =~= old(self).ready@ + seen.filter(due(now)).map_values(task_of()).push(
                        waiter.task,
                    ));
                }
            }
            let is_due: bool = match waiter.wakeup {
                Some(tick) => tick <= now,
                None => false,
            };
            if is_due {
                self.ready.push(waiter.task);
            } else {
                kept.push(waiter);
            }
            i += 1;
        }
        assert(self.blocked@.take(i as int) =~= self.blocked@);
        self.blocked = kept;
    }

    /// Performs one step of the timer handler at tick `now`.
    pub fn perform(&mut self, op: TimerOp, now: u64)
        ensures
            final(self)@ == old(self)@.step(op, now),
    {
        if self.faulted {
            return;
        }
        match op {
            TimerOp::LockBlockedTasks => {
                if self.locked {
                    self.faulted = true;
                } else {
                    self.locked = true;
                }
            },
            TimerOp::HandleWaitingTasks => {
                if self.locked {
                    self.wake(now);
                } else {
                    self.faulted = true;
                }
            },
            TimerOp::UnlockBlockedTasks => {
                if self.locked {
                    self.locked = false;
                } else {
                    self.faulted = true;
                }
            },
            TimerOp::EndOfInterrupt => {
                self.pending = false;
            },
            TimerOp::Reschedule => {
                if self.locked {
                    self.faulted = true;
                } else {
                    self.rescheduled = true;
                }
            },
        }
    }

    /// Performs the steps of `ops` in order at tick `now`.
    pub fn run(&mut self, ops: &Vec<TimerOp>, now: u64)
        ensures
            final(self)@ == old(self)@.run(ops@, now),
    {
        let mut i: usize = 0;
        while i < ops.len()
            invariant
                i <= ops.len(),
                self@ == old(self)@.run(ops@.subrange(0, i as int), now),
            decreases ops.len() - i,
        {
            proof {
                lemma_timer_run_push(old(self)@, ops@.subrange(0, i as int), ops@[i as int], now);
                assert(ops@.subrange(0, i as int).push(ops@[i as int]) =~= ops@.subrange(
                    0,
                    i + 1,
                ));
            }
            self.perform(ops[i], now);
            i += 1;
        }
        assert(ops@.subrange(0, i as int) =~= ops@);
    }
}

} // verus!
