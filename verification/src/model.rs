//! The pool as a mathematical value, the four events that change it, and
//! what holds of every pool that these events can reach.
use vstd::prelude::*;
use crate::message::{Action, Message, PoolError};
use crate::worker::{state_after, WorkerState};

verus! {

/// How many workers of `states` are in the state `which`.
pub open spec fn count_in(states: Seq<WorkerState>, which: WorkerState) -> nat
    decreases states.len(),
{
    if states.len() == 0 {
        0
    } else {
        count_in(states.drop_last(), which) + if states.last() == which {
            1nat
        } else {
            0nat
        }
    }
}

/// A count lies between nothing and everything, and reaches either end
/// exactly when no worker, or every worker, is in that state.
pub proof fn lemma_count_bounds(states: Seq<WorkerState>, which: WorkerState)
    ensures
        count_in(states, which) <= states.len(),
        count_in(states, which) == states.len() <==> forall|i: int|
            0 <= i < states.len() ==> states[i] == which,
        count_in(states, which) == 0 <==> forall|i: int|
            0 <= i < states.len() ==> states[i] != which,
    decreases states.len(),
{
    if states.len() > 0 {
        let front = states.drop_last();
        lemma_count_bounds(front, which);
        assert forall|i: int| 0 <= i < front.len() implies front[i] == states[i] by {}
        if forall|i: int| 0 <= i < front.len() ==> front[i] == which {
            if states.last() == which {
                assert forall|i: int| 0 <= i < states.len() implies states[i] == which by {
                    if i < front.len() {
                        assert(front[i] == which);
                    }
                }
            }
        }
        if forall|i: int| 0 <= i < front.len() ==> front[i] != which {
            if states.last() != which {
                assert forall|i: int| 0 <= i < states.len() implies states[i] != which by {
                    if i < front.len() {
                        assert(front[i] != which);
                    }
                }
            }
        }
        if forall|i: int| 0 <= i < states.len() ==> states[i] == which {
            assert(states[states.len() - 1] == which);
            assert forall|i: int| 0 <= i < front.len() implies front[i] == which by {
                assert(states[i] == which);
            }
        }
        if forall|i: int| 0 <= i < states.len() ==> states[i] != which {
            assert(states[states.len() - 1] != which);
            assert forall|i: int| 0 <= i < front.len() implies front[i] != which by {
                assert(states[i] != which);
            }
        }
    }
}

/// Moving one worker to another state moves one unit between the counts.
pub proof fn lemma_count_update(
    states: Seq<WorkerState>,
    id: int,
    to: WorkerState,
    which: WorkerState,
)
    requires
        0 <= id < states.len(),
    ensures
        count_in(states.update(id, to), which) + (if states[id] == which {
            1nat
        } else {
            0nat
        }) == count_in(states, which) + (if to == which {
            1nat
        } else {
            0nat
        }),
    decreases states.len(),
{
    let after = states.update(id, to);
    if id == states.len() - 1 {
        assert(after.drop_last() =~= states.drop_last());
    } else {
        lemma_count_update(states.drop_last(), id, to, which);
        assert(after.drop_last() =~= states.drop_last().update(id, to));
    }
}

/// What a worker is told to do with the message it received.
pub open spec fn action_for<J>(msg: Message<J>) -> Action<J> {
    match msg {
        Message::NewJob(job) => Action::Run(job),
        Message::Terminate => Action::Exit,
    }
}

/// The ids of a pool of `size` workers: 0, 1, and so on, each once.
pub open spec fn ids_upto(size: nat) -> Seq<usize> {
    Seq::new(size, |i: int| i as usize)
}

/// `n` orders to terminate, one behind the other.
pub open spec fn stops<J>(n: nat) -> Seq<Message<J>> {
    Seq::new(n, |i: int| Message::Terminate)
}

/// What can happen to a pool.
pub enum Event<J> {
    /// A caller submits a job.
    Execute(J),
    /// The worker of this id asks for its next message.
    Receive(int),
    /// The worker of this id reports that its job is done.
    Finish(int),
    /// The owner tears the pool down.
    Shutdown,
}

/// The pool as a value.
pub struct PoolView<J> {
    /// The state of each worker, by id.
    pub states: Seq<WorkerState>,
    /// The messages in the queue, the next to be handed out first.
    pub pending: Seq<Message<J>>,
    /// Every message the queue ever took in, in the order of arrival.
    pub accepted: Seq<Message<J>>,
    /// For each message handed out so far, the id of the worker that got it:
    /// `recipients[k]` received `accepted[k]`.
    pub recipients: Seq<int>,
    /// For each message handed out so far, whether its worker is done with
    /// it: the job has run to its end, or the worker has terminated.
    pub finished: Seq<bool>,
    /// For each worker, by id, which accepted message is the job that it is
    /// running, if it is running one.
    pub running: Seq<Option<int>>,
    /// Once shutdown has begun: how many messages had been accepted before
    /// the first order to terminate.
    pub stop_at: Option<nat>,
}

impl<J> PoolView<J> {
    /// The number of workers.
    pub open spec fn size(self) -> nat {
        self.states.len()
    }

    /// How many messages have been handed to workers.
    pub open spec fn delivered(self) -> nat {
        self.recipients.len()
    }

    /// Whether the message accepted as number `k` is a job that a worker has
    /// received and not yet run to its end.
    pub open spec fn in_progress(self, k: int) -> bool {
        0 <= k < self.delivered() && !self.finished[k]
    }

    /// No worker is left to receive: every one has terminated.
    pub open spec fn closed(self) -> bool {
        forall|i: int| 0 <= i < self.states.len() ==> self.states[i] == WorkerState::Terminated
    }

    /// Whether the message accepted as number `k` is one of shutdown's orders
    /// to terminate.
    pub open spec fn is_stop(self, k: int) -> bool {
        match self.stop_at {
            Some(first) => first <= k < first + self.size(),
            None => false,
        }
    }

    /// How many orders to terminate have been handed to workers.
    pub open spec fn stops_delivered(self) -> int {
        match self.stop_at {
            Some(first) => if self.delivered() <= first {
                0
            } else if self.delivered() >= first + self.size() {
                self.size() as int
            } else {
                self.delivered() - first
            },
            None => 0,
        }
    }

    /// Whether an order to terminate has been handed to the worker `id`.
    pub open spec fn got_stop(self, id: int) -> bool {
        exists|k: int|
            0 <= k < self.recipients.len() && self.is_stop(k) && #[trigger] self.recipients[k]
                == id
    }

    /// What holds of every pool.
    pub open spec fn inv(self) -> bool {
        &&& self.size() > 0
        &&& self.delivered() <= self.accepted.len()
        &&& self.pending == self.accepted.skip(self.delivered() as int)
        &&& forall|k: int|
            0 <= k < self.recipients.len() ==> 0 <= #[trigger] self.recipients[k] < self.size()
        &&& forall|k: int|
            0 <= k < self.accepted.len() ==> (#[trigger] self.accepted[k] is Terminate
                <==> self.is_stop(k))
        &&& self.stop_at matches Some(first) ==> first + self.size() <= self.accepted.len()
        &&& count_in(self.states, WorkerState::Terminated) == self.stops_delivered()
        &&& forall|k: int|
            0 <= k < self.recipients.len() && self.is_stop(k) ==> self.states[#[trigger] self.recipients[k]]
                == WorkerState::Terminated
        &&& forall|k: int, l: int|
            0 <= k < l < self.recipients.len() && self.is_stop(k) && self.is_stop(l)
                ==> #[trigger] self.recipients[k] != #[trigger] self.recipients[l]
        &&& forall|i: int|
            0 <= i < self.states.len() && #[trigger] self.states[i] == WorkerState::Terminated
                ==> self.got_stop(i)
        &&& self.finished.len() == self.delivered()
        &&& self.running.len() == self.size()
        &&& forall|i: int|
            0 <= i < self.size() ==> (self.states[i] == WorkerState::Executing
                <==> #[trigger] self.running[i] is Some)
        &&& forall|i: int|
            0 <= i < self.size() && #[trigger] self.running[i] is Some ==> {
                let k = self.running[i]->Some_0;
                &&& self.in_progress(k)
                &&& self.recipients[k] == i
                &&& self.accepted[k] is NewJob
            }
        &&& forall|k: int|
            0 <= k < self.delivered() && !#[trigger] self.finished[k]
                ==> self.running[self.recipients[k]] == Some(k)
    }

    /// A fresh pool of `size` idle workers and an empty queue.
    pub open spec fn fresh(size: nat) -> Self {
        PoolView {
            states: Seq::new(size, |i: int| WorkerState::Idle),
            pending: Seq::empty(),
            accepted: Seq::empty(),
            recipients: Seq::empty(),
            finished: Seq::empty(),
            running: Seq::new(size, |i: int| None),
            stop_at: None,
        }
    }

    /// `msg` joins the back of the queue.
    pub open spec fn enqueue(self, msg: Message<J>) -> Self {
        PoolView { pending: self.pending.push(msg), accepted: self.accepted.push(msg), ..self }
    }

    /// A job is submitted.
    pub open spec fn submit(self, job: J) -> Self {
        self.enqueue(Message::NewJob(job))
    }

    /// The idle worker `id` takes the message at the front of the queue.
    pub open spec fn deliver(self, id: int) -> Self {
        PoolView {
            states: self.states.update(id, state_after(self.pending[0])),
            pending: self.pending.skip(1),
            recipients: self.recipients.push(id),
            finished: self.finished.push(self.pending[0] is Terminate),
            running: if self.pending[0] is NewJob {
                self.running.update(id, Some(self.delivered() as int))
            } else {
                self.running
            },
            ..self
        }
    }

    /// The worker `id` has run its job to the end.
    pub open spec fn complete(self, id: int) -> Self {
        PoolView {
            states: self.states.update(id, WorkerState::Idle),
            finished: match self.running[id] {
                Some(k) => self.finished.update(k, true),
                None => self.finished,
            },
            running: self.running.update(id, None),
            ..self
        }
    }

    /// What the pool answers when the worker `id` asks for its next message.
    pub open spec fn receive_answer(self, id: int) -> Result<Action<J>, PoolError> {
        if !(0 <= id < self.size()) {
            Err(PoolError::NoSuchWorker)
        } else if self.states[id] != WorkerState::Idle {
            Err(PoolError::NotIdle)
        } else if self.pending.len() == 0 {
            Ok(Action::Wait)
        } else {
            Ok(action_for(self.pending[0]))
        }
    }

    /// The pool after the worker `id` has asked for its next message: only an
    /// idle worker of the pool, with a message waiting, changes anything.
    pub open spec fn after_receive(self, id: int) -> Self {
        if 0 <= id < self.size() && self.states[id] == WorkerState::Idle && self.pending.len()
            > 0 {
            self.deliver(id)
        } else {
            self
        }
    }

    /// What the pool answers when the worker `id` reports that its job is done.
    pub open spec fn finish_answer(self, id: int) -> Result<(), PoolError> {
        if !(0 <= id < self.size()) {
            Err(PoolError::NoSuchWorker)
        } else if self.states[id] != WorkerState::Executing {
            Err(PoolError::NotExecuting)
        } else {
            Ok(())
        }
    }

    /// The pool after the worker `id` has reported that its job is done.
    pub open spec fn after_finish(self, id: int) -> Self {
        if 0 <= id < self.size() && self.states[id] == WorkerState::Executing {
            self.complete(id)
        } else {
            self
        }
    }

    /// The pool after its owner has asked for shutdown: only the first request
    /// changes anything.
    pub open spec fn after_shutdown(self) -> Self {
        if self.stop_at is None {
            self.stop()
        } else {
            self
        }
    }

    /// The pool after a submission: a closed pool takes nothing in.
    pub open spec fn after_execute(self, job: J) -> Self {
        if self.closed() {
            self
        } else {
            self.submit(job)
        }
    }

    /// The pool after one event.
    pub open spec fn after(self, event: Event<J>) -> Self {
        match event {
            Event::Execute(job) => self.after_execute(job),
            Event::Receive(id) => self.after_receive(id),
            Event::Finish(id) => self.after_finish(id),
            Event::Shutdown => self.after_shutdown(),
        }
    }

    /// The pool after a sequence of events, the first of them first.
    pub open spec fn after_all(self, events: Seq<Event<J>>) -> Self
        decreases events.len(),
    {
        if events.len() == 0 {
            self
        } else {
            self.after_all(events.drop_last()).after(events.last())
        }
    }

    /// Shutdown begins: one order to terminate for each worker.
    pub open spec fn stop(self) -> Self {
        PoolView {
            pending: self.pending + stops(self.size()),
            accepted: self.accepted + stops(self.size()),
            stop_at: Some(self.accepted.len()),
            ..self
        }
    }
}

/// A fresh pool is a valid pool, and it is open.
pub proof fn lemma_fresh_inv<J>(size: nat)
    requires
        size > 0,
    ensures
        PoolView::<J>::fresh(size).inv(),
        !PoolView::<J>::fresh(size).closed(),
{
    let v = PoolView::<J>::fresh(size);
    lemma_count_bounds(v.states, WorkerState::Terminated);
    assert(v.pending =~= v.accepted.skip(0));
    assert(v.states[0] == WorkerState::Idle);
}

/// Submitting a job keeps the pool valid.
pub proof fn lemma_submit_inv<J>(v: PoolView<J>, job: J)
    requires
        v.inv(),
    ensures
        v.submit(job).inv(),
{
    let w = v.submit(job);
    assert(w.pending =~= w.accepted.skip(w.delivered() as int));
    assert forall|i: int|
        0 <= i < w.states.len() && #[trigger] w.states[i]
            == WorkerState::Terminated implies w.got_stop(i) by {
        assert(v.got_stop(i));
        let k = choose|k: int|
            0 <= k < v.recipients.len() && v.is_stop(k) && #[trigger] v.recipients[k] == i;
        assert(w.is_stop(k) && w.recipients[k] == i);
    }
}

/// Handing the front message to an idle worker keeps the pool valid.
pub proof fn lemma_deliver_inv<J>(v: PoolView<J>, id: int)
    requires
        v.inv(),
        0 <= id < v.size(),
        v.states[id] == WorkerState::Idle,
        v.pending.len() > 0,
    ensures
        v.deliver(id).inv(),
        v.pending[0] == v.accepted[v.delivered() as int],
{
    let w = v.deliver(id);
    let d = v.delivered() as int;
    let msg = v.pending[0];
    assert(msg == v.accepted[d]);
    assert(w.pending =~= w.accepted.skip(d + 1));
    assert(msg is Terminate <==> v.is_stop(d));
    lemma_count_update(v.states, id, state_after(msg), WorkerState::Terminated);
    assert forall|k: int| 0 <= k < w.recipients.len() && w.is_stop(k) implies w.states[#[trigger] w.recipients[k]]
        == WorkerState::Terminated by {
        if k < d {
            assert(v.states[v.recipients[k]] == WorkerState::Terminated);
        }
    }
    assert forall|k: int, l: int|
        0 <= k < l < w.recipients.len() && w.is_stop(k) && w.is_stop(l) implies #[trigger] w.recipients[k]
        != #[trigger] w.recipients[l] by {
        assert(v.states[v.recipients[k]] == WorkerState::Terminated);
        if l < d {
            assert(v.recipients[k] != v.recipients[l]);
        }
    }
    assert forall|i: int|
        0 <= i < w.states.len() && #[trigger] w.states[i]
            == WorkerState::Terminated implies w.got_stop(i) by {
        if i == id {
            assert(w.is_stop(d) && w.recipients[d] == i);
        } else {
            assert(v.states[i] == WorkerState::Terminated);
            assert(v.got_stop(i));
            let k = choose|k: int|
                0 <= k < v.recipients.len() && v.is_stop(k) && #[trigger] v.recipients[k] == i;
            assert(w.is_stop(k) && w.recipients[k] == i);
        }
    }
}

/// A worker that returns from its job keeps the pool valid.
pub proof fn lemma_complete_inv<J>(v: PoolView<J>, id: int)
    requires
        v.inv(),
        0 <= id < v.size(),
        v.states[id] == WorkerState::Executing,
    ensures
        v.complete(id).inv(),
{
    let w = v.complete(id);
    lemma_count_update(v.states, id, WorkerState::Idle, WorkerState::Terminated);
    assert forall|k: int| 0 <= k < w.recipients.len() && w.is_stop(k) implies w.states[#[trigger] w.recipients[k]]
        == WorkerState::Terminated by {
        assert(v.states[v.recipients[k]] == WorkerState::Terminated);
    }
    assert forall|i: int|
        0 <= i < w.states.len() && #[trigger] w.states[i]
            == WorkerState::Terminated implies w.got_stop(i) by {
        assert(v.states[i] == WorkerState::Terminated);
        assert(v.got_stop(i));
        let k = choose|k: int|
            0 <= k < v.recipients.len() && v.is_stop(k) && #[trigger] v.recipients[k] == i;
        assert(w.is_stop(k) && w.recipients[k] == i);
    }
}

/// The first shutdown keeps the pool valid.
pub proof fn lemma_stop_inv<J>(v: PoolView<J>)
    requires
        v.inv(),
        v.stop_at is None,
    ensures
        v.stop().inv(),
{
    let w = v.stop();
    assert(w.pending =~= w.accepted.skip(w.delivered() as int));
    lemma_count_bounds(v.states, WorkerState::Terminated);
    assert forall|k: int| 0 <= k < w.accepted.len() implies (#[trigger] w.accepted[k] is Terminate
        <==> w.is_stop(k)) by {
        if k < v.accepted.len() {
            assert(w.accepted[k] == v.accepted[k]);
            assert(!v.is_stop(k));
        }
    }
}

} // verus!
