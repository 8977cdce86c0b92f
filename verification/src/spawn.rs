//! Scheduling work for the main thread: where a spawned task goes, when the
//! main loop is woken, and what one turn of it does.

use vstd::prelude::*;

verus! {

/// What is installed for scheduling.
#[derive(Debug, Clone, Copy, PartialEq, Eq, Structural)]
pub struct SpawnState {
    pub scheduler_configured: bool,
    /// The doorbell by which a wake of a local task reaches the main loop.
    pub doorbell: Option<u64>,
    /// Whether a scoped executor is alive.
    pub scoped: bool,
}

/// What can happen to it.
#[derive(Debug, Clone, Copy, PartialEq, Eq, Structural)]
pub enum SpawnOp {
    SetSchedulers,
    SetDoorbell(u64),
    SetScoped(bool),
    /// A local task was spawned or woken.
    Ring,
}

/// Where a task goes.
#[derive(Debug, Clone, Copy, PartialEq, Eq, Structural)]
pub enum SpawnTarget {
    /// The scoped executor.
    Scoped,
    /// The main thread's queue.
    MainThread,
    /// The main thread's queue for what can wait.
    MainThreadLowPriority,
}

impl SpawnState {
    pub fn new() -> (s: SpawnState)
        ensures
            s == (SpawnState { scheduler_configured: false, doorbell: None, scoped: false }),
    {
        SpawnState { scheduler_configured: false, doorbell: None, scoped: false }
    }

    /// What is installed afterwards.
    pub open spec fn after(self, op: SpawnOp) -> SpawnState {
        match op {
            SpawnOp::SetSchedulers => SpawnState { scheduler_configured: true, ..self },
            SpawnOp::SetDoorbell(doorbell) => SpawnState { doorbell: Some(doorbell), ..self },
            SpawnOp::SetScoped(scoped) => SpawnState { scoped, ..self },
            SpawnOp::Ring => self,
        }
    }

    /// The doorbells that are rung meanwhile.
    pub open spec fn rung_by(self, op: SpawnOp) -> Seq<u64> {
        match (op, self.doorbell) {
            (SpawnOp::Ring, Some(doorbell)) => seq![doorbell],
            _ => Seq::empty(),
        }
    }

    /// The callbacks that schedule normal and low priority work are installed.
    pub fn set_schedulers(&mut self)
        ensures
            *final(self) == old(self).after(SpawnOp::SetSchedulers),
    {
        self.scheduler_configured = true;
    }

    pub fn is_scheduler_configured(&self) -> (r: bool)
        ensures
            r == self.scheduler_configured,
    {
        self.scheduler_configured
    }

    /// The doorbell that local task wakes ring is installed; it takes the place
    /// of one that was there, and neither is rung.
    pub fn set_local_doorbell(&mut self, doorbell: u64)
        ensures
            *final(self) == old(self).after(SpawnOp::SetDoorbell(doorbell)),
    {
        self.doorbell = Some(doorbell);
    }

    /// The doorbell that a spawn or a wake of a local task rings, once, where
    /// there is one.
    pub fn ring_doorbell(&self) -> (r: Option<u64>)
        ensures
            r == self.doorbell,
            self.rung_by(SpawnOp::Ring) == match r {
                Some(doorbell) => seq![doorbell],
                None => Seq::empty(),
            },
    {
        self.doorbell
    }

    /// Where a task for the main thread goes.
    pub open spec fn target_of(self, low_priority: bool) -> SpawnTarget {
        if self.scoped {
            SpawnTarget::Scoped
        } else if low_priority {
            SpawnTarget::MainThreadLowPriority
        } else {
            SpawnTarget::MainThread
        }
    }

    /// Where a task for the main thread goes: a scoped executor takes every one
    /// while it is alive.
    pub fn spawn_into_main_thread(&self, low_priority: bool) -> (t: SpawnTarget)
        requires
            self.scoped || self.scheduler_configured,
        ensures
            t == (if self.scoped {
                SpawnTarget::Scoped
            } else if low_priority {
                SpawnTarget::MainThreadLowPriority
            } else {
                SpawnTarget::MainThread
            }),
            t == self.target_of(low_priority),
    {
        if self.scoped {
            SpawnTarget::Scoped
        } else {
            self.spawn(low_priority)
        }
    }

    /// Where a task that was spawned on the main thread goes.
    pub fn spawn(&self, low_priority: bool) -> (t: SpawnTarget)
        requires
            self.scheduler_configured,
        ensures
            t == (if low_priority {
                SpawnTarget::MainThreadLowPriority
            } else {
                SpawnTarget::MainThread
            }),
    {
        if low_priority {
            SpawnTarget::MainThreadLowPriority
        } else {
            SpawnTarget::MainThread
        }
    }
}

/// A scoped executor; while there is one it takes the tasks for the main
/// thread.
#[derive(Debug)]
pub struct ScopedExecutor {}

impl ScopedExecutor {
    pub fn new(state: &mut SpawnState) -> (s: ScopedExecutor)
        ensures
            *final(state) == old(state).after(SpawnOp::SetScoped(true)),
    {
        state.scoped = true;
        ScopedExecutor {  }
    }

    /// The executor is done with.
    pub fn close(self, state: &mut SpawnState)
        ensures
            *final(state) == old(state).after(SpawnOp::SetScoped(false)),
    {
        state.scoped = false;
    }
}

/// What a thread that was to provide a result has come to.
#[derive(Debug)]
pub enum ThreadState<T> {
    Finished(T),
    Running,
    /// It ended without providing one.
    Gone,
}

/// What a poll for the result leads to.
#[derive(Debug)]
pub enum ThreadPoll<T> {
    Ready(T),
    /// Keep the waker; the thread will use it.
    KeepWaker,
    /// There will be none: [`NO_THREAD_RESULT`].
    Failed,
}

/// What is said of a thread that ended without a result.
pub const NO_THREAD_RESULT: &'static str = "thread terminated without providing a result";

/// What is said to have been done when nothing can be queued any more.
pub const WAITING_FOR_EVENTS: &'static str = "while waiting for events";

/// Decides about a poll for the result of a thread.
pub fn poll_thread<T>(state: ThreadState<T>) -> (r: ThreadPoll<T>)
    ensures
        match state {
            ThreadState::Finished(t) => r == ThreadPoll::Ready(t),
            ThreadState::Running => r is KeepWaker,
            ThreadState::Gone => r is Failed,
        },
{
    match state {
        ThreadState::Finished(t) => ThreadPoll::Ready(t),
        ThreadState::Running => ThreadPoll::KeepWaker,
        ThreadState::Gone => ThreadPoll::Failed,
    }
}

/// What one turn of the main loop does next.
#[derive(Debug, Clone, Copy, PartialEq, Eq, Structural)]
pub enum TickAction {
    /// Wait until something has been queued.
    Wait,
    /// Take the first item of normal priority, without waiting for one.
    TakeNormal,
    /// Take the first item of low priority, without waiting for one.
    TakeLow,
    /// Run what was taken.
    Run,
    /// Let the executor of local tasks run one task that is ready, if any.
    PollLocal,
    Done,
    /// End, with an error that says [`WAITING_FOR_EVENTS`].
    Fail,
}

/// What came of it.
#[derive(Debug, Clone, Copy, PartialEq, Eq, Structural)]
pub enum TickEvent {
    /// Something was queued, or nothing can be any more.
    Woken(bool),
    /// An item was taken, or there was none.
    Taken(bool),
    Ran,
    /// A local task was run, or none was ready.
    Polled(bool),
}

/// The main loop of a program without one of its own.
#[derive(Debug, Clone, Copy, PartialEq, Eq, Structural)]
pub struct SimpleExecutor {
    pub action: TickAction,
}

impl SimpleExecutor {
    pub open spec fn following(self, event: TickEvent) -> TickAction {
        match event {
            TickEvent::Woken(queued) => if queued {
                TickAction::TakeNormal
            } else {
                TickAction::Fail
            },
            TickEvent::Taken(taken) => if taken {
                TickAction::Run
            } else if self.action is TakeNormal {
                TickAction::TakeLow
            } else {
                TickAction::Done
            },
            TickEvent::Ran => TickAction::PollLocal,
            TickEvent::Polled(ran) => if ran {
                TickAction::PollLocal
            } else {
                TickAction::TakeNormal
            },
        }
    }

    pub open spec fn after(self, event: TickEvent) -> SimpleExecutor {
        SimpleExecutor { action: self.following(event) }
    }

    pub open spec fn expects(self, event: TickEvent) -> bool {
        match event {
            TickEvent::Woken(_) => self.action is Wait,
            TickEvent::Taken(_) => self.action is TakeNormal || self.action is TakeLow,
            TickEvent::Ran => self.action is Run,
            TickEvent::Polled(_) => self.action is PollLocal,
        }
    }

    /// Makes a main loop: from here on work can be scheduled, and a wake of a
    /// local task rings the loop's doorbell.
    pub fn new(state: &mut SpawnState, doorbell: u64) -> (e: SimpleExecutor)
        ensures
            *final(state) == old(state).after(SpawnOp::SetSchedulers).after(
                SpawnOp::SetDoorbell(doorbell),
            ),
            e == (SimpleExecutor { action: TickAction::Wait }),
    {
        state.set_schedulers();
        state.set_local_doorbell(doorbell);
        SimpleExecutor { action: TickAction::Wait }
    }

    /// Begins a turn, where none is under way.
    pub fn tick(&mut self) -> (action: TickAction)
        requires
            old(self).action is Wait || old(self).action is Done || old(self).action is Fail,
        ensures
            action is Wait,
            final(self).action == action,
    {
        self.action = TickAction::Wait;
        TickAction::Wait
    }

    /// Takes what came of the last action and names the next one. The turn goes
    /// on until nothing is queued, and after every item the local tasks are run
    /// until none is ready.
    pub fn step(&mut self, event: TickEvent) -> (action: TickAction)
        requires
            old(self).expects(event),
        ensures
            action == old(self).following(event),
            *final(self) == old(self).after(event),
    {
        self.action = match event {
            TickEvent::Woken(queued) => if queued {
                TickAction::TakeNormal
            } else {
                TickAction::Fail
            },
            TickEvent::Taken(taken) => if taken {
                TickAction::Run
            } else if self.action == TickAction::TakeNormal {
                TickAction::TakeLow
            } else {
                TickAction::Done
            },
            TickEvent::Ran => TickAction::PollLocal,
            TickEvent::Polled(ran) => self.drive_local_executor(ran),
        };
        self.action
    }

    /// Whether the local tasks go on: as long as one was run, there may be
    /// another.
    pub fn drive_local_executor(&self, ran: bool) -> (action: TickAction)
        ensures
            action == (if ran {
                TickAction::PollLocal
            } else {
                TickAction::TakeNormal
            }),
    {
        if ran {
            TickAction::PollLocal
        } else {
            TickAction::TakeNormal
        }
    }
}

/// An item that is taken up never goes without a run of the local tasks until
/// none is ready: that is what a ring of the doorbell asks for. Low priority
/// items are looked at only when there is none of normal priority, and a turn
/// ends well only when there is no item at all.
pub proof fn every_event_drives_the_local_tasks(e: SimpleExecutor, event: TickEvent)
    requires
        e.expects(event),
    ensures
        event is Ran ==> e.following(event) is PollLocal,
        e.action is PollLocal && !(e.following(event) is PollLocal) ==> event == TickEvent::Polled(
            false,
        ),
        e.following(event) is TakeLow ==> e.action is TakeNormal && event == TickEvent::Taken(
            false,
        ),
        e.following(event) is Done ==> e.action is TakeLow && event == TickEvent::Taken(false),
        e.following(event) is Fail <==> event == TickEvent::Woken(false),
{
}

/// The loop after an item was run, and after it as many local tasks as were
/// ready.
pub open spec fn after_item(e: SimpleExecutor, local_tasks: nat) -> SimpleExecutor {
    after_local_tasks(e.after(TickEvent::Taken(true)).after(TickEvent::Ran), local_tasks)
}

pub open spec fn after_local_tasks(e: SimpleExecutor, local_tasks: nat) -> SimpleExecutor
    decreases local_tasks,
{
    if local_tasks == 0 {
        e.after(TickEvent::Polled(false))
    } else {
        after_local_tasks(e.after(TickEvent::Polled(true)), (local_tasks - 1) as nat)
    }
}

/// The items that a turn runs, in order, where the given ones are queued and no
/// others are queued meanwhile. `local_tasks` says how many local tasks are
/// ready after each.
pub open spec fn turn(
    e: SimpleExecutor,
    normal: Seq<int>,
    low: Seq<int>,
    local_tasks: spec_fn(int) -> nat,
) -> Seq<int>
    decreases
            normal.len() + low.len(),
            if e.action is TakeNormal {
                1nat
            } else {
                0nat
            },
{
    match e.action {
        TickAction::TakeNormal => if normal.len() > 0 {
            seq![normal[0]] + turn(
                after_item(e, local_tasks(normal[0])),
                normal.drop_first(),
                low,
                local_tasks,
            )
        } else if e.after(TickEvent::Taken(false)).action is TakeLow {
            turn(e.after(TickEvent::Taken(false)), normal, low, local_tasks)
        } else {
            Seq::empty()
        },
        TickAction::TakeLow => if low.len() > 0 {
            seq![low[0]] + turn(
                after_item(e, local_tasks(low[0])),
                normal,
                low.drop_first(),
                local_tasks,
            )
        } else {
            Seq::empty()
        },
        _ => Seq::empty(),
    }
}

proof fn lemma_local_tasks_end(e: SimpleExecutor, local_tasks: nat)
    ensures
        after_local_tasks(e, local_tasks).action is TakeNormal,
    decreases local_tasks,
{
    if local_tasks > 0 {
        lemma_local_tasks_end(e.after(TickEvent::Polled(true)), (local_tasks - 1) as nat);
    }
}

/// A turn runs all that was queued before it, in order, and the items of normal
/// priority before those of low priority, whichever were queued first.
pub proof fn a_turn_drains_the_queues(
    e: SimpleExecutor,
    normal: Seq<int>,
    low: Seq<int>,
    local_tasks: spec_fn(int) -> nat,
)
    requires
        e.action is Wait,
    ensures
        turn(e.after(TickEvent::Woken(true)), normal, low, local_tasks) == normal + low,
{
    lemma_turn(e.after(TickEvent::Woken(true)), normal, low, local_tasks);
}

proof fn lemma_turn(
    e: SimpleExecutor,
    normal: Seq<int>,
    low: Seq<int>,
    local_tasks: spec_fn(int) -> nat,
)
    requires
        e.action is TakeNormal,
    ensures
        turn(e, normal, low, local_tasks) == normal + low,
    decreases normal.len() + low.len(),
{
    if normal.len() > 0 {
        let next = after_item(e, local_tasks(normal[0]));
        lemma_local_tasks_end(
            e.after(TickEvent::Taken(true)).after(TickEvent::Ran),
            local_tasks(normal[0]),
        );
        lemma_turn(next, normal.drop_first(), low, local_tasks);
        assert(normal + low == seq![normal[0]] + (normal.drop_first() + low));
    } else {
        let to_low = e.after(TickEvent::Taken(false));
        assert(turn(e, normal, low, local_tasks) == turn(to_low, normal, low, local_tasks));
        if low.len() > 0 {
            let next = after_item(to_low, local_tasks(low[0]));
            lemma_local_tasks_end(
                to_low.after(TickEvent::Taken(true)).after(TickEvent::Ran),
                local_tasks(low[0]),
            );
            lemma_turn(next, normal, low.drop_first(), local_tasks);
            assert(normal + low == seq![low[0]] + (normal + low.drop_first()));
        } else {
            assert(normal + low == Seq::<int>::empty());
        }
    }
}

/// The doorbells that are rung over a sequence of happenings.
pub open spec fn rings(s: SpawnState, ops: Seq<SpawnOp>) -> Seq<u64>
    decreases ops.len(),
{
    if ops.len() == 0 {
        Seq::empty()
    } else {
        s.rung_by(ops[0]) + rings(s.after(ops[0]), ops.drop_first())
    }
}

/// How many of them are rings.
pub open spec fn ring_count(ops: Seq<SpawnOp>) -> nat
    decreases ops.len(),
{
    if ops.len() == 0 {
        0
    } else {
        (if ops[0] is Ring {
            1nat
        } else {
            0nat
        }) + ring_count(ops.drop_first())
    }
}

/// Installing a doorbell rings nothing, and until another is installed every
/// ring rings that one, once, and never one that was there before.
pub proof fn the_installed_doorbell_is_rung(s: SpawnState, doorbell: u64, ops: Seq<SpawnOp>)
    requires
        forall|i: int| 0 <= i < ops.len() ==> !((#[trigger] ops[i]) is SetDoorbell),
    ensures
        s.rung_by(SpawnOp::SetDoorbell(doorbell)) == Seq::<u64>::empty(),
        rings(s.after(SpawnOp::SetDoorbell(doorbell)), ops) == Seq::new(
            ring_count(ops),
            |i: int| doorbell,
        ),
    decreases ops.len(),
{
    let start = s.after(SpawnOp::SetDoorbell(doorbell));
    if ops.len() > 0 {
        let rest = ops.drop_first();
        assert(!(ops[0] is SetDoorbell));
        assert forall|i: int| 0 <= i < rest.len() implies !((#[trigger] rest[i]) is SetDoorbell) by {
            assert(rest[i] == ops[i + 1]);
        }
        let next = start.after(ops[0]);
        the_installed_doorbell_is_rung(next, doorbell, rest);
        assert(next.after(SpawnOp::SetDoorbell(doorbell)) == next);
        assert(rings(start, ops) == start.rung_by(ops[0]) + rings(next, rest));
        assert(rings(start, ops) =~= Seq::new(ring_count(ops), |i: int| doorbell));
    } else {
        assert(rings(start, ops) =~= Seq::new(ring_count(ops), |i: int| doorbell));
    }
}

/// What is installed for scheduling is changed by its own happening only, and a
/// ring changes nothing.
pub proof fn happenings_change_their_own_part(s: SpawnState, op: SpawnOp)
    ensures
        ({
            let after = s.after(op);
            &&& after.scheduler_configured <==> s.scheduler_configured || op is SetSchedulers
            &&& op is SetDoorbell ==> after.doorbell == Some(op->SetDoorbell_0)
            &&& !(op is SetDoorbell) ==> after.doorbell == s.doorbell
            &&& op is SetScoped ==> after.scoped == op->SetScoped_0
            &&& !(op is SetScoped) ==> after.scoped == s.scoped
            &&& op is Ring && s.doorbell is Some ==> s.rung_by(op) == seq![s.doorbell->0]
            &&& !(op is Ring) || s.doorbell is None ==> s.rung_by(op).len() == 0
        }),
{
}

/// What is taken is run, whichever queue it comes from, and the next look is at
/// the normal one.
pub proof fn what_is_taken_is_run(e: SimpleExecutor, then: TickEvent)
    requires
        e.action is TakeNormal || e.action is TakeLow,
    ensures
        e.following(TickEvent::Taken(true)) is Run,
        e.after(TickEvent::Taken(true)).expects(then) <==> then is Ran,
        e.after(TickEvent::Taken(true)).after(TickEvent::Ran).following(TickEvent::Polled(false))
            is TakeNormal,
        e.after(TickEvent::Taken(true)).after(TickEvent::Ran).following(TickEvent::Polled(true))
            is PollLocal,
{
}

/// While a scoped executor is alive it takes every task, whatever its priority;
/// otherwise the main thread does, in the queue of the task's priority.
pub proof fn tasks_go_by_their_priority(s: SpawnState, low_priority: bool)
    ensures
        s.after(SpawnOp::SetScoped(true)).target_of(low_priority) is Scoped,
        s.after(SpawnOp::SetScoped(false)).target_of(low_priority) is MainThreadLowPriority
            <==> low_priority,
        s.after(SpawnOp::SetScoped(false)).target_of(low_priority) is MainThread <==> !low_priority,
{
}

/// Each part of a turn is followed by word of what came of it, and the end of the
/// turn by nothing.
pub proof fn each_part_of_a_turn_has_its_outcomes(e: SimpleExecutor, event: TickEvent, then: TickEvent)
    requires
        e.expects(event),
    ensures
        e.after(event).expects(then) <==> match e.following(event) {
            TickAction::Wait => then is Woken,
            TickAction::TakeNormal => then is Taken,
            TickAction::TakeLow => then is Taken,
            TickAction::Run => then is Ran,
            TickAction::PollLocal => then is Polled,
            TickAction::Done => false,
            TickAction::Fail => false,
        },
        (SimpleExecutor { action: TickAction::Wait }).expects(then) <==> then is Woken,
{
}

} // verus!
