use crate::queue::{QueueModel, Received};
use vstd::prelude::*;

verus! {

/// Where a worker stands in its receive-execute loop.
#[derive(Debug, Clone, Copy, PartialEq, Eq, Structural)]
pub enum WorkerState {
    /// Waiting on the queue for the next job.
    Running,
    /// Running a job it took; this blocks that worker only.
    Executing,
    /// Saw the end of the stream and left its loop for good.
    Terminated,
}

/// What happened to a worker since its last step.
#[derive(Debug)]
pub enum WorkerEvent<T> {
    /// The outcome of a receive on the queue.
    Received(Received<T>),
    /// The job it was running returned.
    JobDone,
}

/// What the worker's thread does next.
#[derive(Debug)]
pub enum WorkerAction<T> {
    /// Run this job to completion, then report `JobDone`.
    Run(T),
    /// Block until the queue signals a change, then receive again.
    Wait,
    /// Receive from the queue.
    Receive,
    /// Leave the loop; the thread finishes.
    Exit,
}

/// The events a worker in `state` can meet: a running worker hears from
/// the queue, an executing one from its job, a terminated one from nothing.
pub open spec fn expects<T>(state: WorkerState, event: WorkerEvent<T>) -> bool {
    match event {
        WorkerEvent::Received(_) => state == WorkerState::Running,
        WorkerEvent::JobDone => state == WorkerState::Executing,
    }
}

/// The worker's transition table.
pub open spec fn transition<T>(state: WorkerState, event: WorkerEvent<T>) -> (WorkerState, WorkerAction<T>) {
    match event {
        WorkerEvent::Received(Received::Job(job)) => (WorkerState::Executing, WorkerAction::Run(job)),
        WorkerEvent::Received(Received::Empty) => (WorkerState::Running, WorkerAction::Wait),
        WorkerEvent::Received(Received::Closed) => (WorkerState::Terminated, WorkerAction::Exit),
        WorkerEvent::JobDone => (WorkerState::Running, WorkerAction::Receive),
    }
}

impl WorkerState {
    /// Whether `event` can reach a worker in this state.
    pub fn accepts<T>(self, event: &WorkerEvent<T>) -> (r: bool)
        ensures
            r == expects(self, *event),
    {
        match event {
            WorkerEvent::Received(_) => self == WorkerState::Running,
            WorkerEvent::JobDone => self == WorkerState::Executing,
        }
    }

    /// One step of the worker loop: the next state and what to do.
    pub fn step<T>(self, event: WorkerEvent<T>) -> (r: (WorkerState, WorkerAction<T>))
        requires
            expects(self, event),
        ensures
            r == transition(self, event),
    {
        match event {
            WorkerEvent::Received(Received::Job(job)) => (WorkerState::Executing, WorkerAction::Run(job)),
            WorkerEvent::Received(Received::Empty) => (WorkerState::Running, WorkerAction::Wait),
            WorkerEvent::Received(Received::Closed) => (WorkerState::Terminated, WorkerAction::Exit),
            WorkerEvent::JobDone => (WorkerState::Running, WorkerAction::Receive),
        }
    }

    /// Whether the worker has left its loop.
    pub fn is_terminated(self) -> (r: bool)
        ensures
            r == (self == WorkerState::Terminated),
    {
        self == WorkerState::Terminated
    }
}

/// A running worker that receives from a queue runs the oldest buffered
/// job, waits only while the queue is open and empty, and exits exactly when
/// the queue is closed and drained: no accepted job is left behind by a
/// worker that exits.
pub proof fn law_worker_exits_only_when_drained<T>(m: QueueModel<T>)
    ensures
        expects(WorkerState::Running, WorkerEvent::Received(m.received())),
        transition(WorkerState::Running, WorkerEvent::Received(m.received())).1 is Exit <==> (
        m.closed && m.pending.len() == 0),
        transition(WorkerState::Running, WorkerEvent::Received(m.received())).1 is Wait <==> (
        !m.closed && m.pending.len() == 0),
        m.pending.len() > 0 ==> transition(
            WorkerState::Running,
            WorkerEvent::Received(m.received()),
        ) == (WorkerState::Executing, WorkerAction::Run(m.pending[0])),
{
}

/// A terminated worker is never restarted: no event reaches it.
pub proof fn law_terminated_is_final<T>(event: WorkerEvent<T>)
    ensures
        !expects(WorkerState::Terminated, event),
{
}

/// A worker leaves its loop only on the end of the stream; running a job
/// always brings it back to receiving.
pub proof fn law_exit_only_on_end_of_stream<T>(state: WorkerState, event: WorkerEvent<T>)
    requires
        expects(state, event),
    ensures
        transition(state, event).0 == WorkerState::Terminated <==> event is Received
            && event->Received_0 is Closed,
        state == WorkerState::Executing ==> transition(state, event) == (
        WorkerState::Running,
        WorkerAction::<T>::Receive,
        ),
{
}

} // verus!
