//! A single worker: its stable id and its place in the receive-execute loop.
use vstd::prelude::*;
use crate::message::Message;

verus! {

/// Where a worker stands in its loop.
#[derive(Clone, Copy, PartialEq, Eq, Debug, Structural)]
pub enum WorkerState {
    /// Waiting for the next message.
    Idle,
    /// Running a job.
    Executing,
    /// Out of the loop; nothing leaves this state.
    Terminated,
}

/// The state an idle worker enters when it receives `msg`.
pub open spec fn state_after<J>(msg: Message<J>) -> WorkerState {
    match msg {
        Message::NewJob(_) => WorkerState::Executing,
        Message::Terminate => WorkerState::Terminated,
    }
}

/// The job that `msg` asks an idle worker to run, if it is one.
pub open spec fn job_of<J>(msg: Message<J>) -> Option<J> {
    match msg {
        Message::NewJob(job) => Some(job),
        Message::Terminate => None,
    }
}

/// One worker of a pool: the id it keeps for life, and its state.
#[derive(Clone, Copy, Debug)]
pub struct Worker {
    id: usize,
    state: WorkerState,
}

impl Worker {
    /// The worker's id.
    pub closed spec fn spec_id(&self) -> usize {
        self.id
    }

    /// Where the worker stands in its loop.
    pub closed spec fn spec_state(&self) -> WorkerState {
        self.state
    }

    /// A worker starts idle.
    pub fn new(id: usize) -> (worker: Worker)
        ensures
            worker.spec_id() == id,
            worker.spec_state() == WorkerState::Idle,
    {
        Worker { id, state: WorkerState::Idle }
    }

    pub fn id(&self) -> (id: usize)
        ensures
            id == self.spec_id(),
    {
        self.id
    }

    pub fn state(&self) -> (state: WorkerState)
        ensures
            state == self.spec_state(),
    {
        self.state
    }

    /// An idle worker takes one message: a job makes it busy and is handed
    /// out to be run, the order to terminate ends it.
    pub fn on_message<J>(&mut self, msg: Message<J>) -> (job: Option<J>)
        requires
            old(self).spec_state() == WorkerState::Idle,
        ensures
            final(self).spec_id() == old(self).spec_id(),
            final(self).spec_state() == state_after(msg),
            job == job_of(msg),
    {
        match msg {
            Message::NewJob(job) => {
                self.state = WorkerState::Executing;
                Some(job)
            },
            Message::Terminate => {
                self.state = WorkerState::Terminated;
                None
            },
        }
    }

    /// The job has run to its end, whether it succeeded or failed: the worker
    /// waits again.
    pub fn on_job_done(&mut self)
        requires
            old(self).spec_state() == WorkerState::Executing,
        ensures
            final(self).spec_id() == old(self).spec_id(),
            final(self).spec_state() == WorkerState::Idle,
    {
        self.state = WorkerState::Idle;
    }
}

} // verus!
