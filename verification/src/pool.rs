//! The pool itself: a fixed set of workers, the queue they share, and the
//! shutdown that ends them all.
use std::collections::VecDeque;
use vstd::prelude::*;
use crate::message::{Action, Message, PoolError};
use crate::model::{
    count_in, ids_upto, lemma_complete_inv, lemma_count_bounds, lemma_count_update,
    lemma_deliver_inv, lemma_fresh_inv, lemma_stop_inv, lemma_submit_inv, stops, PoolView,
};
use crate::worker::{Worker, WorkerState};

verus! {

/// A pool of a fixed, non-zero number of workers.
///
/// `J` is the job: the pool never looks inside one, it only hands each to one
/// worker.
pub struct ThreadPool<J> {
    workers: Vec<Worker>,
    queue: VecDeque<Message<J>>,
    terminated: usize,
    stopping: bool,
    accepted: Ghost<Seq<Message<J>>>,
    recipients: Ghost<Seq<int>>,
    finished: Ghost<Seq<bool>>,
    running: Ghost<Seq<Option<int>>>,
    stop_at: Ghost<Option<nat>>,
}

impl<J> View for ThreadPool<J> {
    type V = PoolView<J>;

    closed spec fn view(&self) -> PoolView<J> {
        PoolView {
            states: Seq::new(self.workers@.len(), |i: int| self.workers@[i].spec_state()),
            pending: self.queue@,
            accepted: self.accepted@,
            recipients: self.recipients@,
            finished: self.finished@,
            running: self.running@,
            stop_at: self.stop_at@,
        }
    }
}

impl<J> ThreadPool<J> {
    /// The id that each worker carries, in the order in which the pool holds
    /// the workers.
    pub closed spec fn ids(&self) -> Seq<usize> {
        Seq::new(self.workers@.len(), |i: int| self.workers@[i].spec_id())
    }

    /// The pool is valid: its value is a valid pool value, worker `i` carries
    /// the id `i`, and the bookkeeping agrees with the value.
    pub closed spec fn wf(&self) -> bool {
        &&& self@.inv()
        &&& self.ids() == ids_upto(self@.size())
        &&& self.terminated == count_in(self@.states, WorkerState::Terminated)
        &&& self.stopping == (self.stop_at@ is Some)
    }

    /// The value of a valid pool is a valid pool value: what holds of every
    /// such value holds of this pool.
    pub proof fn lemma_valid(&self)
        requires
            self.wf(),
        ensures
            self@.inv(),
    {
    }

    /// The workers of a valid pool carry the ids `0` to `size - 1`, each once,
    /// in this order.
    pub proof fn lemma_ids_distinct(&self)
        requires
            self.wf(),
        ensures
            self.ids() == ids_upto(self@.size()),
            self.ids().len() == self@.size(),
            forall|i: int| 0 <= i < self@.size() ==> self.ids()[i] == i,
            forall|i: int, j: int|
                0 <= i < j < self@.size() ==> self.ids()[i] != self.ids()[j],
    {
        assert(self@.size() == self.workers.len() <= usize::MAX);
        assert forall|i: int| 0 <= i < self@.size() implies self.ids()[i] == i by {
            assert(ids_upto(self@.size())[i] == i as usize);
        }
    }

    /// A pool of `size` idle workers with the ids `0` to `size - 1`, and an
    /// empty queue.
    pub fn new(size: usize) -> (pool: ThreadPool<J>)
        requires
            size > 0,
        ensures
            pool.wf(),
            pool@ == PoolView::<J>::fresh(size as nat),
            pool.ids() == ids_upto(size as nat),
            !pool@.closed(),
    {
        let mut workers: Vec<Worker> = Vec::new();
        let mut id: usize = 0;
        while id < size
            invariant
                id <= size,
                workers@.len() == id,
                forall|j: int|
                    0 <= j < id ==> (#[trigger] workers@[j]).spec_id() == j && workers@[j].spec_state()
                        == WorkerState::Idle,
            decreases size - id,
        {
            workers.push(Worker::new(id));
            id = id + 1;
        }
        let pool = ThreadPool {
            workers,
            queue: VecDeque::new(),
            terminated: 0,
            stopping: false,
            accepted: Ghost(Seq::empty()),
            recipients: Ghost(Seq::empty()),
            finished: Ghost(Seq::empty()),
            running: Ghost(Seq::new(size as nat, |i: int| None)),
            stop_at: Ghost(None),
        };
        proof {
            lemma_fresh_inv::<J>(size as nat);
            assert(pool@.states =~= PoolView::<J>::fresh(size as nat).states);
            assert(pool.ids() =~= ids_upto(size as nat));
        }
        pool
    }

    /// Submits a job: it joins the back of the queue, to be handed to exactly
    /// one worker. The caller never waits for a worker. The one failure is a
    /// pool that no worker is left to receive from.
    pub fn execute(&mut self, job: J) -> (res: Result<(), PoolError>)
        requires
            old(self).wf(),
        ensures
            final(self).wf(),
            final(self).ids() == old(self).ids(),
            res == (if old(self)@.closed() {
                Err::<(), PoolError>(PoolError::Closed)
            } else {
                Ok::<(), PoolError>(())
            }),
            final(self)@ == old(self)@.after_execute(job),
    {
        proof {
            lemma_count_bounds(self@.states, WorkerState::Terminated);
        }
        if self.terminated == self.workers.len() {
            return Err(PoolError::Closed);
        }
        proof {
            lemma_submit_inv(self@, job);
            self.accepted@ = self.accepted@.push(Message::NewJob(job));
        }
        self.queue.push_back(Message::NewJob(job));
        Ok(())
    }

    /// The worker `id` asks for its next message. An idle worker gets the
    /// message at the front of the queue: a job makes it busy, the order to
    /// terminate ends it. With an empty queue it is told to wait.
    pub fn receive(&mut self, id: usize) -> (res: Result<Action<J>, PoolError>)
        requires
            old(self).wf(),
        ensures
            final(self).wf(),
            final(self).ids() == old(self).ids(),
            res == old(self)@.receive_answer(id as int),
            final(self)@ == old(self)@.after_receive(id as int),
    {
        if id >= self.workers.len() {
            return Err(PoolError::NoSuchWorker);
        }
        let mut worker: Worker = self.workers[id];
        if worker.state() != WorkerState::Idle {
            return Err(PoolError::NotIdle);
        }
        match self.queue.pop_front() {
            None => Ok(Action::Wait),
            Some(msg) => {
                proof {
                    lemma_deliver_inv(old(self)@, id as int);
                    lemma_count_update(
                        old(self)@.states,
                        id as int,
                        crate::worker::state_after(msg),
                        WorkerState::Terminated,
                    );
                    lemma_count_bounds(
                        old(self)@.after_receive(id as int).states,
                        WorkerState::Terminated,
                    );
                    self.recipients@ = self.recipients@.push(id as int);
                    self.finished@ = old(self)@.deliver(id as int).finished;
                    self.running@ = old(self)@.deliver(id as int).running;
                }
                let job = worker.on_message(msg);
                self.workers.set(id, worker);
                proof {
                    assert(self@.states =~= old(self)@.deliver(id as int).states);
                    assert(self@.pending =~= old(self)@.deliver(id as int).pending);
                    assert(self.ids() =~= old(self).ids());
                }
                match job {
                    Some(job) => Ok(Action::Run(job)),
                    None => {
                        self.terminated = self.terminated + 1;
                        Ok(Action::Exit)
                    },
                }
            },
        }
    }

    /// The worker `id` reports that its job has run to its end, whether the
    /// job succeeded or failed: the worker waits again.
    pub fn finish(&mut self, id: usize) -> (res: Result<(), PoolError>)
        requires
            old(self).wf(),
        ensures
            final(self).wf(),
            final(self).ids() == old(self).ids(),
            res == old(self)@.finish_answer(id as int),
            final(self)@ == old(self)@.after_finish(id as int),
    {
        if id >= self.workers.len() {
            return Err(PoolError::NoSuchWorker);
        }
        let mut worker: Worker = self.workers[id];
        if worker.state() != WorkerState::Executing {
            return Err(PoolError::NotExecuting);
        }
        proof {
            lemma_complete_inv(old(self)@, id as int);
            lemma_count_update(
                old(self)@.states,
                id as int,
                WorkerState::Idle,
                WorkerState::Terminated,
            );
            self.finished@ = old(self)@.complete(id as int).finished;
            self.running@ = old(self)@.complete(id as int).running;
        }
        worker.on_job_done();
        self.workers.set(id, worker);
        proof {
            assert(self@.states =~= old(self)@.complete(id as int).states);
            assert(self.ids() =~= old(self).ids());
        }
        Ok(())
    }

    /// Tears the pool down. The first call enqueues one order to terminate for
    /// each worker and returns the ids of the workers whose threads the caller
    /// now waits for, in the order of the ids. A later call changes nothing and
    /// returns no id: no thread is waited for twice.
    pub fn shutdown(&mut self) -> (to_join: Vec<usize>)
        requires
            old(self).wf(),
        ensures
            final(self).wf(),
            final(self).ids() == old(self).ids(),
            final(self)@ == old(self)@.after_shutdown(),
            to_join@ == (if old(self)@.stop_at is None {
                ids_upto(old(self)@.size())
            } else {
                Seq::<usize>::empty()
            }),
    {
        let mut to_join: Vec<usize> = Vec::new();
        if self.stopping {
            return to_join;
        }
        let size: usize = self.workers.len();
        let mut sent: usize = 0;
        while sent < size
            invariant
                sent <= size,
                size == self.workers@.len(),
                self.workers@ == old(self).workers@,
                self.queue@ == old(self).queue@ + stops::<J>(sent as nat),
                self.terminated == old(self).terminated,
                self.stopping == old(self).stopping,
                self.accepted@ == old(self).accepted@,
                self.recipients@ == old(self).recipients@,
                self.finished@ == old(self).finished@,
                self.running@ == old(self).running@,
                self.stop_at@ == old(self).stop_at@,
            decreases size - sent,
        {
            self.queue.push_back(Message::Terminate);
            sent = sent + 1;
            proof {
                assert(self.queue@ =~= old(self).queue@ + stops::<J>(sent as nat));
            }
        }
        let mut next: usize = 0;
        while next < size
            invariant
                next <= size,
                size == self.workers@.len(),
                self.ids() == ids_upto(size as nat),
                to_join@ == ids_upto(next as nat),
            decreases size - next,
        {
            let worker: Worker = self.workers[next];
            to_join.push(worker.id());
            proof {
                assert(self.ids()[next as int] == next);
                assert(to_join@ =~= ids_upto((next + 1) as nat));
            }
            next = next + 1;
        }
        proof {
            lemma_stop_inv(old(self)@);
            self.stop_at@ = Some(old(self).accepted@.len());
            self.accepted@ = old(self).accepted@ + stops::<J>(size as nat);
        }
        self.stopping = true;
        proof {
            assert(self@.states =~= old(self)@.states);
        }
        to_join
    }

    /// The number of workers, fixed when the pool was made.
    pub fn size(&self) -> (size: usize)
        ensures
            size == self@.size(),
    {
        self.workers.len()
    }

    /// The state of the worker `id`, if the pool has such a worker.
    pub fn state_of(&self, id: usize) -> (state: Option<WorkerState>)
        ensures
            state == (if id < self@.size() {
                Some(self@.states[id as int])
            } else {
                None
            }),
    {
        if id < self.workers.len() {
            let worker: Worker = self.workers[id];
            Some(worker.state())
        } else {
            None
        }
    }

    /// The ids of the workers, in the order in which the pool holds them.
    pub fn worker_ids(&self) -> (ids: Vec<usize>)
        ensures
            ids@ == self.ids(),
    {
        let mut ids: Vec<usize> = Vec::new();
        let mut next: usize = 0;
        while next < self.workers.len()
            invariant
                next <= self.workers@.len(),
                ids@ == self.ids().take(next as int),
            decreases self.workers@.len() - next,
        {
            let worker: Worker = self.workers[next];
            ids.push(worker.id());
            proof {
                assert(ids@ =~= self.ids().take(next + 1));
            }
            next = next + 1;
        }
        proof {
            assert(ids@ =~= self.ids());
        }
        ids
    }

    /// How many messages wait in the queue.
    pub fn pending(&self) -> (n: usize)
        ensures
            n == self@.pending.len(),
    {
        self.queue.len()
    }

    /// Whether shutdown has begun.
    pub fn is_stopping(&self) -> (stopping: bool)
        requires
            self.wf(),
        ensures
            stopping == (self@.stop_at is Some),
    {
        self.stopping
    }

    /// Whether every worker has terminated, so that nothing can be submitted
    /// any more.
    pub fn is_closed(&self) -> (closed: bool)
        requires
            self.wf(),
        ensures
            closed == self@.closed(),
    {
        proof {
            lemma_count_bounds(self@.states, WorkerState::Terminated);
        }
        self.terminated == self.workers.len()
    }
}

} // verus!
