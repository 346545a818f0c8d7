//! What travels through the pool's queue, and what a worker is told to do.
use vstd::prelude::*;

verus! {

/// One entry of the queue: a job to run, or the order to leave the loop.
pub enum Message<J> {
    NewJob(J),
    Terminate,
}

/// What a worker does after it has asked the pool for its next message.
pub enum Action<J> {
    /// Run this job to its end, then report that it is done.
    Run(J),
    /// Leave the receive loop for good.
    Exit,
    /// The queue is empty: block until something is submitted.
    Wait,
}

/// Why the pool turned an event down.
#[derive(Clone, Copy, PartialEq, Eq, Debug, Structural)]
pub enum PoolError {
    /// Every worker has left its loop: nobody is left to receive.
    Closed,
    /// The id names no worker of this pool.
    NoSuchWorker,
    /// The worker is not waiting for a message.
    NotIdle,
    /// The worker is not running a job.
    NotExecuting,
}

} // verus!
