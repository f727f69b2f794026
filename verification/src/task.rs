//! The streaming task: one per connection. It sends the current frame over
//! and over; when a send fails it reconnects once, and when that fails too
//! it stops for good. The decisions are a state machine; the surrounding
//! program performs each action and reports what came of it.

use vstd::prelude::*;

verus! {

/// The state of a streaming task.
#[derive(Clone, Copy, Debug, PartialEq, Eq, Structural)]
pub enum TaskState {
    /// Reading the current frame and sending it, without pause.
    Streaming,
    /// A send failed; one attempt to connect again is under way.
    Reconnecting,
    /// The reconnect failed; the task has stopped and stays stopped.
    Terminated,
}

/// What came of the action that a task last performed.
#[derive(Clone, Copy, Debug, PartialEq, Eq, Structural)]
pub enum TaskEvent {
    /// A frame was written and flushed.
    SendSucceeded,
    /// A write or the flush failed.
    SendFailed,
    /// A new connection is open.
    Reconnected,
    /// The attempt to connect again failed.
    ReconnectFailed,
}

/// What a task does next.
#[derive(Clone, Copy, Debug, PartialEq, Eq, Structural)]
pub enum TaskAction {
    /// Read the current frame, encode it and send it.
    SendFrame,
    /// Open a new connection in place of the broken one.
    Reconnect,
    /// Do nothing more.
    Stop,
}

/// The state that follows `state` on `event`. An event that does not belong
/// to the state changes nothing.
pub open spec fn next_state(state: TaskState, event: TaskEvent) -> TaskState {
    match (state, event) {
        (TaskState::Streaming, TaskEvent::SendFailed) => TaskState::Reconnecting,
        (TaskState::Reconnecting, TaskEvent::Reconnected) => TaskState::Streaming,
        (TaskState::Reconnecting, TaskEvent::ReconnectFailed) => TaskState::Terminated,
        _ => state,
    }
}

/// What a task in `state` does.
pub open spec fn action_in(state: TaskState) -> TaskAction {
    match state {
        TaskState::Streaming => TaskAction::SendFrame,
        TaskState::Reconnecting => TaskAction::Reconnect,
        TaskState::Terminated => TaskAction::Stop,
    }
}

/// The state of a task after a run of events.
pub open spec fn run_task(state: TaskState, events: Seq<TaskEvent>) -> TaskState
    decreases events.len(),
{
    if events.len() == 0 {
        state
    } else {
        next_state(run_task(state, events.drop_last()), events.last())
    }
}

/// The state in which every task starts.
pub fn initial_state() -> (state: TaskState)
    ensures
        state == TaskState::Streaming,
{
    TaskState::Streaming
}

/// What a task in `state` does.
pub fn action_for(state: TaskState) -> (action: TaskAction)
    ensures
        action == action_in(state),
{
    match state {
        TaskState::Streaming => TaskAction::SendFrame,
        TaskState::Reconnecting => TaskAction::Reconnect,
        TaskState::Terminated => TaskAction::Stop,
    }
}

/// Takes a task from `state` over `event`: the state that follows, and what
/// the task does in it.
pub fn step(state: TaskState, event: TaskEvent) -> (next: (TaskState, TaskAction))
    ensures
        next.0 == next_state(state, event),
        next.1 == action_in(next.0),
{
    let following = match state {
        TaskState::Streaming => match event {
            TaskEvent::SendFailed => TaskState::Reconnecting,
            _ => TaskState::Streaming,
        },
        TaskState::Reconnecting => match event {
            TaskEvent::Reconnected => TaskState::Streaming,
            TaskEvent::ReconnectFailed => TaskState::Terminated,
            _ => TaskState::Reconnecting,
        },
        TaskState::Terminated => TaskState::Terminated,
    };
    (following, action_for(following))
}

/// A task stops only when a reconnect fails.
pub proof fn lemma_terminated_only_by_failed_reconnect(state: TaskState, event: TaskEvent)
    requires
        next_state(state, event) == TaskState::Terminated,
    ensures
        state == TaskState::Terminated || (state == TaskState::Reconnecting && event
            == TaskEvent::ReconnectFailed),
{
}

/// A task that has stopped stays stopped, whatever happens.
pub proof fn lemma_terminated_is_final(events: Seq<TaskEvent>)
    ensures
        run_task(TaskState::Terminated, events) == TaskState::Terminated,
    decreases events.len(),
{
    if events.len() > 0 {
        lemma_terminated_is_final(events.drop_last());
    }
}

/// A task keeps streaming for as long as its sends succeed.
pub proof fn lemma_streaming_while_sends_succeed(events: Seq<TaskEvent>)
    requires
        forall|i: int| 0 <= i < events.len() ==> events[i] == TaskEvent::SendSucceeded,
    ensures
        run_task(TaskState::Streaming, events) == TaskState::Streaming,
    decreases events.len(),
{
    if events.len() > 0 {
        lemma_streaming_while_sends_succeed(events.drop_last());
    }
}

} // verus!
