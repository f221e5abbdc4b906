//! The lifecycle of the tasks that connect a machine's TAP or TUN device to the simulated
//! network: they run until the machine is dropped, then linger for a grace period that every
//! frame or packet read from the device renews, and then finish.

use vstd::prelude::*;

verus! {

/// How long, in milliseconds, a task lingers after its machine is dropped.
pub const GRACE_PERIOD_MS: u64 = 100;

/// Where a device task is in its life.
#[derive(Clone, Copy, Debug, PartialEq, Eq, Structural)]
pub enum TaskState {
    /// The machine is alive.
    Receiving,
    /// The machine was dropped; the task finishes at `deadline_ms` unless the device keeps
    /// producing.
    Dying { deadline_ms: u64 },
}

/// What one poll of a task does to its state `old`, given whether the device produced
/// anything (`received`), whether the machine has been dropped (`dropped`) and the time
/// `now_ms`: the new state, and whether the task is finished.
pub open spec fn lifecycle_step(old: TaskState, received: bool, dropped: bool, now_ms: u64) -> (TaskState, bool) {
    let dying = match old {
        TaskState::Receiving => if dropped {
            Some((now_ms + GRACE_PERIOD_MS) as u64)
        } else {
            None
        },
        TaskState::Dying { deadline_ms } => Some(deadline_ms),
    };
    match dying {
        None => (TaskState::Receiving, false),
        Some(deadline) => {
            let deadline = if received {
                (now_ms + GRACE_PERIOD_MS) as u64
            } else {
                deadline
            };
            (TaskState::Dying { deadline_ms: deadline }, now_ms >= deadline)
        },
    }
}

/// The lifecycle of the task that connects a TAP device to the network.
#[derive(Clone, Copy, Debug)]
pub struct TapTask {
    pub state: TaskState,
}

/// The lifecycle of the task that connects a TUN device to the network.
#[derive(Clone, Copy, Debug)]
pub struct TunTask {
    pub state: TaskState,
}

/// One poll of a task's lifecycle (see `lifecycle_step`).
fn step(state: TaskState, received: bool, dropped: bool, now_ms: u64) -> (res: (TaskState, bool))
    requires
        now_ms <= u64::MAX - GRACE_PERIOD_MS,
    ensures
        res == lifecycle_step(state, received, dropped, now_ms),
{
    let deadline = match state {
        TaskState::Receiving => {
            if dropped {
                now_ms + GRACE_PERIOD_MS
            } else {
                return (TaskState::Receiving, false);
            }
        },
        TaskState::Dying { deadline_ms } => deadline_ms,
    };
    let deadline = if received {
        now_ms + GRACE_PERIOD_MS
    } else {
        deadline
    };
    (TaskState::Dying { deadline_ms: deadline }, now_ms >= deadline)
}

impl TapTask {
    /// A task whose machine is alive.
    pub fn new() -> (task: TapTask)
        ensures
            task.state == TaskState::Receiving,
    {
        TapTask { state: TaskState::Receiving }
    }

    /// Advances the lifecycle (see `lifecycle_step`) and says whether the task is finished.
    pub fn poll_lifecycle(&mut self, received: bool, dropped: bool, now_ms: u64) -> (finished: bool)
        requires
            now_ms <= u64::MAX - GRACE_PERIOD_MS,
        ensures
            (final(self).state, finished) == lifecycle_step(old(self).state, received, dropped, now_ms),
    {
        let (state, finished) = step(self.state, received, dropped, now_ms);
        self.state = state;
        finished
    }
}

impl TunTask {
    /// A task whose machine is alive.
    pub fn new() -> (task: TunTask)
        ensures
            task.state == TaskState::Receiving,
    {
        TunTask { state: TaskState::Receiving }
    }

    /// Advances the lifecycle (see `lifecycle_step`) and says whether the task is finished.
    pub fn poll_lifecycle(&mut self, received: bool, dropped: bool, now_ms: u64) -> (finished: bool)
        requires
            now_ms <= u64::MAX - GRACE_PERIOD_MS,
        ensures
            (final(self).state, finished) == lifecycle_step(old(self).state, received, dropped, now_ms),
    {
        let (state, finished) = step(self.state, received, dropped, now_ms);
        self.state = state;
        finished
    }
}

/// A task never finishes while its machine is alive, nor within the grace period after the
/// last time its device produced anything.
pub proof fn lemma_task_lingers(old: TaskState, received: bool, dropped: bool, now_ms: u64)
    requires
        now_ms <= u64::MAX - GRACE_PERIOD_MS,
        old == TaskState::Receiving && !dropped || received,
    ensures
        !lifecycle_step(old, received, dropped, now_ms).1,
{
}

/// Once the machine is dropped and the device stays quiet, the task finishes as soon as the
/// grace period after the drop has passed.
pub proof fn lemma_quiet_task_finishes(now_ms: u64, later_ms: u64)
    requires
        now_ms <= u64::MAX - GRACE_PERIOD_MS,
        later_ms <= u64::MAX - GRACE_PERIOD_MS,
        later_ms >= now_ms + GRACE_PERIOD_MS,
    ensures
        ({
            let first = lifecycle_step(TaskState::Receiving, false, true, now_ms);
            &&& !first.1
            &&& lifecycle_step(first.0, false, true, later_ms).1
        }),
{
}

} // verus!
