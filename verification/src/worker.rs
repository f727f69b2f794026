//! The worker: it builds its connection pool one connection after the
//! other, gives up on the first failure, and otherwise starts one streaming
//! task per connection and keeps track of each task's state.

use crate::task::{action_in, next_state, run_task, step, TaskAction, TaskEvent, TaskState};
use vstd::prelude::*;

verus! {

/// The pause, in milliseconds, that a worker makes before it starts each
/// streaming task, so that the tasks of a pool do not all start at once.
pub const SPAWN_PACING_MILLIS: u64 = 2;

/// How far the connection pool of a worker has come.
#[derive(Clone, Copy, Debug, PartialEq, Eq, Structural)]
pub enum PoolState {
    /// `built` connections are open, `wanted` are asked for.
    Building { built: usize, wanted: usize },
    /// All `size` connections are open.
    Complete { size: usize },
    /// A connection could not be opened; the pool is given up.
    Failed,
}

/// What came of an attempt to connect.
#[derive(Clone, Copy, Debug, PartialEq, Eq, Structural)]
pub enum PoolEvent {
    Connected,
    ConnectFailed,
}

/// What the worker does next for its pool.
#[derive(Clone, Copy, Debug, PartialEq, Eq, Structural)]
pub enum PoolAction {
    /// Open the next connection, and nothing else until it is answered.
    Connect,
    /// The pool is complete: start one streaming task per connection.
    SpawnTasks,
    /// Give up: report the failure and start no task.
    Abort,
}

/// The state of a pool of `wanted` connections before the first attempt.
pub open spec fn pool_start(wanted: usize) -> PoolState {
    if wanted == 0 {
        PoolState::Complete { size: 0 }
    } else {
        PoolState::Building { built: 0, wanted }
    }
}

/// The state that follows `state` on `event`. A pool that is complete or
/// has failed stays as it is.
pub open spec fn pool_next(state: PoolState, event: PoolEvent) -> PoolState {
    match state {
        PoolState::Building { built, wanted } => match event {
            PoolEvent::Connected => if built + 1 >= wanted {
                PoolState::Complete { size: wanted }
            } else {
                PoolState::Building { built: (built + 1) as usize, wanted }
            },
            PoolEvent::ConnectFailed => PoolState::Failed,
        },
        _ => state,
    }
}

/// What the worker does for a pool in `state`.
pub open spec fn pool_action(state: PoolState) -> PoolAction {
    match state {
        PoolState::Building { .. } => PoolAction::Connect,
        PoolState::Complete { .. } => PoolAction::SpawnTasks,
        PoolState::Failed => PoolAction::Abort,
    }
}

/// The state of a pool after a run of events.
pub open spec fn run_pool(state: PoolState, events: Seq<PoolEvent>) -> PoolState
    decreases events.len(),
{
    if events.len() == 0 {
        state
    } else {
        pool_next(run_pool(state, events.drop_last()), events.last())
    }
}

fn pool_action_for(state: PoolState) -> (action: PoolAction)
    ensures
        action == pool_action(state),
{
    match state {
        PoolState::Building { .. } => PoolAction::Connect,
        PoolState::Complete { .. } => PoolAction::SpawnTasks,
        PoolState::Failed => PoolAction::Abort,
    }
}

/// Starts the building of a pool of `num_conn` connections.
pub fn start_pool(num_conn: usize) -> (first: (PoolState, PoolAction))
    ensures
        first.0 == pool_start(num_conn),
        first.1 == pool_action(first.0),
{
    let state = if num_conn == 0 {
        PoolState::Complete { size: 0 }
    } else {
        PoolState::Building { built: 0, wanted: num_conn }
    };
    (state, pool_action_for(state))
}

/// Takes a pool from `state` over `event`: the state that follows, and what
/// the worker does in it.
pub fn pool_step(state: PoolState, event: PoolEvent) -> (next: (PoolState, PoolAction))
    ensures
        next.0 == pool_next(state, event),
        next.1 == pool_action(next.0),
{
    let following = match state {
        PoolState::Building { built, wanted } => match event {
            PoolEvent::Connected => if built >= wanted || wanted - built == 1 {
                PoolState::Complete { size: wanted }
            } else {
                PoolState::Building { built: built + 1, wanted }
            },
            PoolEvent::ConnectFailed => PoolState::Failed,
        },
        PoolState::Complete { size } => PoolState::Complete { size },
        PoolState::Failed => PoolState::Failed,
    };
    (following, pool_action_for(following))
}

/// While every attempt succeeds, the pool grows by one connection per
/// attempt, and it is complete exactly when all that were asked for are
/// open.
pub proof fn lemma_pool_grows_in_order(wanted: usize, events: Seq<PoolEvent>)
    requires
        events.len() <= wanted,
        forall|i: int| 0 <= i < events.len() ==> events[i] == PoolEvent::Connected,
    ensures
        run_pool(pool_start(wanted), events) == (if events.len() == wanted {
            PoolState::Complete { size: wanted }
        } else {
            PoolState::Building { built: events.len() as usize, wanted }
        }),
    decreases events.len(),
{
    if events.len() > 0 {
        lemma_pool_grows_in_order(wanted, events.drop_last());
    }
}

/// The first failed attempt ends the building of the pool, whatever is
/// reported after it: the worker aborts and starts no task.
pub proof fn lemma_pool_fails_fast(wanted: usize, events: Seq<PoolEvent>, first_failure: int)
    requires
        0 <= first_failure < events.len(),
        first_failure < wanted,
        events[first_failure] == PoolEvent::ConnectFailed,
        forall|i: int| 0 <= i < first_failure ==> events[i] == PoolEvent::Connected,
    ensures
        run_pool(pool_start(wanted), events) == PoolState::Failed,
        pool_action(run_pool(pool_start(wanted), events)) == PoolAction::Abort,
    decreases events.len(),
{
    let head = events.drop_last();
    if first_failure == events.len() - 1 {
        lemma_pool_grows_in_order(wanted, head);
    } else {
        lemma_pool_fails_fast(wanted, head, first_failure);
    }
}

/// The states of a group of tasks after `event` is delivered to the task in
/// slot `task`. Only that slot can change.
pub open spec fn deliver_to(states: Seq<TaskState>, task: int, event: TaskEvent) -> Seq<
    TaskState,
> {
    if 0 <= task < states.len() {
        states.update(task, next_state(states[task], event))
    } else {
        states
    }
}

/// The states of a group of tasks after a trace of deliveries, each an
/// event and the slot of the task that it belongs to, in the order in which
/// they came in.
pub open spec fn run_group(states: Seq<TaskState>, trace: Seq<(int, TaskEvent)>) -> Seq<
    TaskState,
>
    decreases trace.len(),
{
    if trace.len() == 0 {
        states
    } else {
        deliver_to(run_group(states, trace.drop_last()), trace.last().0, trace.last().1)
    }
}

/// The events of a trace that belong to the task in slot `task`, in order.
pub open spec fn events_for(trace: Seq<(int, TaskEvent)>, task: int) -> Seq<TaskEvent>
    decreases trace.len(),
{
    if trace.len() == 0 {
        Seq::empty()
    } else if trace.last().0 == task {
        events_for(trace.drop_last(), task).push(trace.last().1)
    } else {
        events_for(trace.drop_last(), task)
    }
}

/// The number of tasks that have not stopped.
pub open spec fn active_count(states: Seq<TaskState>) -> nat
    decreases states.len(),
{
    if states.len() == 0 {
        0
    } else {
        active_count(states.drop_last()) + (if states.last() != TaskState::Terminated {
            1nat
        } else {
            0nat
        })
    }
}

/// Faults stay where they happen: whatever is delivered to the tasks of a
/// group, in whatever interleaving, the state of each task is the one that
/// its own events lead to. A failure on one connection takes only the task
/// of that connection through reconnecting; no other task is interrupted.
pub proof fn lemma_fault_isolation(
    states: Seq<TaskState>,
    trace: Seq<(int, TaskEvent)>,
    task: int,
)
    requires
        0 <= task < states.len(),
    ensures
        run_group(states, trace).len() == states.len(),
        run_group(states, trace)[task] == run_task(states[task], events_for(trace, task)),
    decreases trace.len(),
{
    if trace.len() > 0 {
        lemma_fault_isolation(states, trace.drop_last(), task);
        if trace.last().0 == task {
            let own = events_for(trace.drop_last(), task);
            assert(own.push(trace.last().1).drop_last() =~= own);
        }
    }
}

/// Replacing the state in one slot changes the number of active tasks by
/// that slot alone.
proof fn lemma_active_count_update(states: Seq<TaskState>, task: int, state: TaskState)
    requires
        0 <= task < states.len(),
    ensures
        active_count(states.update(task, state)) + (if states[task] != TaskState::Terminated {
            1nat
        } else {
            0nat
        }) == active_count(states) + (if state != TaskState::Terminated {
            1nat
        } else {
            0nat
        }),
    decreases states.len(),
{
    let updated = states.update(task, state);
    if task == states.len() - 1 {
        assert(updated.drop_last() =~= states.drop_last());
    } else {
        lemma_active_count_update(states.drop_last(), task, state);
        assert(updated.drop_last() =~= states.drop_last().update(task, state));
    }
}

/// A failed reconnect costs the group exactly one active task; no other
/// delivery changes how many tasks are active.
pub proof fn lemma_capacity_after_delivery(states: Seq<TaskState>, task: int, event: TaskEvent)
    ensures
        active_count(deliver_to(states, task, event)) == active_count(states) - (if 0 <= task
            < states.len() && states[task] == TaskState::Reconnecting && event
            == TaskEvent::ReconnectFailed {
            1int
        } else {
            0int
        }),
{
    if 0 <= task < states.len() {
        lemma_active_count_update(states, task, next_state(states[task], event));
    }
}

/// The streaming tasks of one worker, one slot per connection of its pool.
#[derive(Debug)]
pub struct TaskGroup {
    states: Vec<TaskState>,
}

impl View for TaskGroup {
    type V = Seq<TaskState>;

    closed spec fn view(&self) -> Seq<TaskState> {
        self.states@
    }
}

impl TaskGroup {
    /// A group of `size` tasks, all streaming.
    pub fn new(size: usize) -> (group: TaskGroup)
        ensures
            group@ == Seq::new(size as nat, |i: int| TaskState::Streaming),
    {
        let mut states: Vec<TaskState> = Vec::new();
        let mut i: usize = 0;
        while i < size
            invariant
                i <= size,
                states@ == Seq::new(i as nat, |i: int| TaskState::Streaming),
            decreases size - i,
        {
            states.push(TaskState::Streaming);
            i += 1;
        }
        TaskGroup { states }
    }

    /// The number of slots.
    pub fn len(&self) -> (len: usize)
        ensures
            len == self@.len(),
    {
        self.states.len()
    }

    /// The state of the task in slot `task`, if there is such a slot.
    pub fn state(&self, task: usize) -> (state: Option<TaskState>)
        ensures
            state == (if task < self@.len() {
                Some(self@[task as int])
            } else {
                None
            }),
    {
        if task < self.states.len() {
            Some(self.states[task])
        } else {
            None
        }
    }

    /// Delivers `event` to the task in slot `task` and says what that task
    /// does next. No other slot changes. Without such a slot nothing
    /// changes and there is nothing to do.
    pub fn deliver(&mut self, task: usize, event: TaskEvent) -> (action: Option<TaskAction>)
        ensures
            final(self)@ == deliver_to(old(self)@, task as int, event),
            action == (if task < old(self)@.len() {
                Some(action_in(final(self)@[task as int]))
            } else {
                None
            }),
    {
        if task < self.states.len() {
            let next = step(self.states[task], event);
            self.states.set(task, next.0);
            Some(next.1)
        } else {
            None
        }
    }

    /// The number of tasks that have not stopped.
    pub fn active(&self) -> (count: usize)
        ensures
            count == active_count(self@),
    {
        let mut count: usize = 0;
        let mut i: usize = 0;
        while i < self.states.len()
            invariant
                i <= self.states@.len(),
                count <= i,
                count == active_count(self.states@.take(i as int)),
            decreases self.states.len() - i,
        {
            assert(self.states@.take(i + 1).drop_last() =~= self.states@.take(i as int));
            match self.states[i] {
                TaskState::Terminated => {},
                _ => {
                    count += 1;
                },
            }
            i += 1;
        }
        assert(self.states@.take(i as int) =~= self.states@);
        count
    }
}

} // verus!
