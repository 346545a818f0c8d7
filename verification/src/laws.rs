//! What follows for every valid pool, whatever events led to it.
use vstd::prelude::*;
use crate::message::{Action, PoolError};
use crate::model::{
    count_in, lemma_complete_inv, lemma_count_bounds, lemma_deliver_inv, lemma_fresh_inv,
    lemma_stop_inv, lemma_submit_inv, Event, PoolView,
};
use crate::worker::WorkerState;

verus! {

/// Every accepted message is in exactly one place. The first `delivered()`
/// of them, in the order of their arrival, have each gone to one worker of the
/// pool; the others wait in the queue, in the order of their arrival. None is
/// lost and none is there twice. A message that has gone to a worker is either
/// done with, or it is the one job that this worker is running now.
pub proof fn law_exactly_once<J>(v: PoolView<J>, k: int)
    requires
        v.inv(),
        0 <= k < v.accepted.len(),
    ensures
        v.delivered() + v.pending.len() == v.accepted.len(),
        k >= v.delivered() ==> v.pending[k - v.delivered()] == v.accepted[k],
        k < v.delivered() ==> 0 <= v.recipients[k] < v.size(),
        v.in_progress(k) ==> {
            &&& v.accepted[k] is NewJob
            &&& v.states[v.recipients[k]] == WorkerState::Executing
            &&& v.running[v.recipients[k]] == Some(k)
        },
        forall|i: int| 0 <= i < v.size() && v.running[i] == Some(k) ==> i == v.recipients[k],
{
    if v.in_progress(k) {
        assert(!v.finished[k]);
        assert(v.running[v.recipients[k]] is Some);
    }
    assert forall|i: int| 0 <= i < v.size() && v.running[i] == Some(k) implies i
        == v.recipients[k] by {
        assert(v.running[i] is Some);
    }
}

/// A worker runs one job at a time: two jobs in progress are on two workers.
pub proof fn law_one_job_per_worker<J>(v: PoolView<J>, k: int, l: int)
    requires
        v.inv(),
        v.in_progress(k),
        v.in_progress(l),
        v.recipients[k] == v.recipients[l],
    ensures
        k == l,
{
    assert(!v.finished[k]);
    assert(!v.finished[l]);
}

/// A worker that reports its job as done settles exactly the job it was
/// running, and no other message changes its place.
pub proof fn law_finish_settles_one<J>(v: PoolView<J>, id: int, k: int)
    requires
        v.inv(),
        0 <= id < v.size(),
        v.states[id] == WorkerState::Executing,
        0 <= k < v.delivered(),
    ensures
        v.running[id] is Some,
        v.in_progress(v.running[id]->Some_0),
        !v.complete(id).in_progress(v.running[id]->Some_0),
        k != v.running[id]->Some_0 ==> v.complete(id).in_progress(k) == v.in_progress(k),
{
    assert(v.running[id] is Some);
}

/// The message that a worker receives next is the oldest one that no worker
/// has received yet: the queue hands out in the order of arrival.
pub proof fn law_first_in_first_out<J>(v: PoolView<J>, id: int)
    requires
        v.inv(),
        0 <= id < v.size(),
        v.states[id] == WorkerState::Idle,
        v.pending.len() > 0,
    ensures
        v.pending[0] == v.accepted[v.delivered() as int],
        v.deliver(id).recipients == v.recipients.push(id),
        v.deliver(id).delivered() == v.delivered() + 1,
        v.deliver(id).accepted == v.accepted,
{
}

/// Before shutdown every message is a job and no worker has terminated: the
/// pool is open, and a submission cannot fail.
pub proof fn law_open_before_shutdown<J>(v: PoolView<J>)
    requires
        v.inv(),
        v.stop_at is None,
    ensures
        !v.closed(),
        forall|i: int| 0 <= i < v.size() ==> v.states[i] != WorkerState::Terminated,
        forall|k: int| 0 <= k < v.accepted.len() ==> v.accepted[k] is NewJob,
{
    lemma_count_bounds(v.states, WorkerState::Terminated);
    assert(v.states[0] != WorkerState::Terminated);
    assert forall|k: int| 0 <= k < v.accepted.len() implies v.accepted[k] is NewJob by {
        assert(!v.is_stop(k));
    }
}

/// Shutdown sends exactly as many orders to terminate as there are workers,
/// one behind the other, and nothing else is ever such an order.
pub proof fn law_one_stop_per_worker_sent<J>(v: PoolView<J>, first: nat)
    requires
        v.inv(),
        v.stop_at == Some(first),
    ensures
        first + v.size() <= v.accepted.len(),
        forall|k: int|
            0 <= k < v.accepted.len() ==> (v.accepted[k] is Terminate <==> first <= k < first
                + v.size()),
{
    assert forall|k: int| 0 <= k < v.accepted.len() implies (v.accepted[k] is Terminate <==> first
        <= k < first + v.size()) by {
        assert(v.is_stop(k) <==> first <= k < first + v.size());
    }
}

/// As many workers have terminated as orders to terminate have been handed
/// out. So while one such order still waits in the queue, a worker is left to
/// receive it, and the pool is open.
pub proof fn law_open_while_stops_wait<J>(v: PoolView<J>, first: nat)
    requires
        v.inv(),
        v.stop_at == Some(first),
        v.delivered() < first + v.size(),
    ensures
        count_in(v.states, WorkerState::Terminated) == v.stops_delivered(),
        v.stops_delivered() < v.size(),
        !v.closed(),
{
    lemma_count_bounds(v.states, WorkerState::Terminated);
}

/// Every worker has terminated exactly when shutdown has begun and all of its
/// orders to terminate have been handed out.
pub proof fn law_closed_iff_all_stopped<J>(v: PoolView<J>)
    requires
        v.inv(),
    ensures
        v.closed() <==> (v.stop_at matches Some(first) && v.delivered() >= first + v.size()),
{
    lemma_count_bounds(v.states, WorkerState::Terminated);
}

/// Once every worker has terminated, every job that was submitted before the
/// shutdown has been handed to a worker and has run to its end there, and no
/// worker is still running anything.
pub proof fn law_drained<J>(v: PoolView<J>, k: int)
    requires
        v.inv(),
        v.closed(),
        v.stop_at is Some,
        0 <= k < v.stop_at->Some_0,
    ensures
        v.accepted[k] is NewJob,
        k < v.delivered(),
        0 <= v.recipients[k] < v.size(),
        v.finished[k],
        count_in(v.states, WorkerState::Executing) == 0,
{
    law_closed_iff_all_stopped(v);
    assert(!v.is_stop(k));
    lemma_count_bounds(v.states, WorkerState::Executing);
    if !v.finished[k] {
        assert(v.running[v.recipients[k]] is Some);
    }
}

/// A worker has terminated exactly when an order to terminate was handed to
/// it, and no worker was ever handed two.
pub proof fn law_one_stop_each<J>(v: PoolView<J>, id: int)
    requires
        v.inv(),
        0 <= id < v.size(),
    ensures
        v.states[id] == WorkerState::Terminated <==> v.got_stop(id),
        forall|k: int, l: int|
            0 <= k < v.delivered() && 0 <= l < v.delivered() && v.accepted[k] is Terminate
                && v.accepted[l] is Terminate && v.recipients[k] == id && v.recipients[l] == id
                ==> k == l,
{
    if v.got_stop(id) {
        let k = choose|k: int|
            0 <= k < v.recipients.len() && v.is_stop(k) && #[trigger] v.recipients[k] == id;
        assert(v.states[v.recipients[k]] == WorkerState::Terminated);
    }
    assert forall|k: int, l: int|
        0 <= k < v.delivered() && 0 <= l < v.delivered() && v.accepted[k] is Terminate
            && v.accepted[l] is Terminate && v.recipients[k] == id && v.recipients[l]
            == id implies k == l by {
        assert(v.is_stop(k) && v.is_stop(l));
        if k < l {
            assert(v.recipients[k] != v.recipients[l]);
        }
        if l < k {
            assert(v.recipients[l] != v.recipients[k]);
        }
    }
}

/// No more jobs are in progress than the pool has workers: a job occupies one
/// worker until it is done, and a busy worker is handed nothing.
pub proof fn law_in_progress_bounded<J>(v: PoolView<J>, id: int)
    requires
        v.inv(),
        0 <= id < v.size(),
    ensures
        count_in(v.states, WorkerState::Executing) <= v.size(),
        v.states[id] == WorkerState::Executing ==> v.after_receive(id) == v,
        count_in(v.states, WorkerState::Executing) == v.size() ==> v.after_receive(id) == v,
{
    lemma_count_bounds(v.states, WorkerState::Executing);
}

/// After shutdown has begun no idle worker finds the queue empty: an order to
/// terminate waits for each worker that is still in its loop, so none is left
/// waiting for ever.
pub proof fn law_no_worker_left_waiting<J>(v: PoolView<J>, id: int)
    requires
        v.inv(),
        v.stop_at is Some,
        0 <= id < v.size(),
        v.states[id] != WorkerState::Terminated,
    ensures
        v.pending.len() > 0,
        v.delivered() < v.stop_at->Some_0 + v.size(),
        v.states[id] == WorkerState::Idle ==> v.receive_answer(id) != Ok::<
            Action<J>,
            PoolError,
        >(Action::Wait),
{
    law_closed_iff_all_stopped(v);
}

/// One event leads from a valid pool to a valid pool with the same workers.
pub proof fn law_event_keeps_valid<J>(v: PoolView<J>, event: Event<J>)
    requires
        v.inv(),
    ensures
        v.after(event).inv(),
        v.after(event).size() == v.size(),
{
    match event {
        Event::Execute(job) => {
            lemma_submit_inv(v, job);
        },
        Event::Receive(id) => {
            if 0 <= id < v.size() && v.states[id] == WorkerState::Idle && v.pending.len() > 0 {
                lemma_deliver_inv(v, id);
            }
        },
        Event::Finish(id) => {
            if 0 <= id < v.size() && v.states[id] == WorkerState::Executing {
                lemma_complete_inv(v, id);
            }
        },
        Event::Shutdown => {
            if v.stop_at is None {
                lemma_stop_inv(v);
            }
        },
    }
}

/// Whatever is submitted, received, finished or shut down, in whatever order
/// and by whichever worker: a pool that began as a fresh pool of `size`
/// workers is valid and still has its `size` workers.
pub proof fn law_every_reachable_pool_is_valid<J>(size: nat, events: Seq<Event<J>>)
    requires
        size > 0,
    ensures
        PoolView::<J>::fresh(size).after_all(events).inv(),
        PoolView::<J>::fresh(size).after_all(events).size() == size,
    decreases events.len(),
{
    if events.len() == 0 {
        lemma_fresh_inv::<J>(size);
    } else {
        law_every_reachable_pool_is_valid(size, events.drop_last());
        law_event_keeps_valid(
            PoolView::<J>::fresh(size).after_all(events.drop_last()),
            events.last(),
        );
    }
}

/// No event but the first shutdown adds an order to terminate, and no event
/// takes an accepted message back, changes which worker received it, or lets
/// a job that is done run again.
pub proof fn law_history_only_grows<J>(v: PoolView<J>, event: Event<J>)
    requires
        v.inv(),
    ensures
        v.accepted.is_prefix_of(v.after(event).accepted),
        v.recipients.is_prefix_of(v.after(event).recipients),
        forall|k: int|
            0 <= k < v.delivered() && v.finished[k] ==> #[trigger] v.after(event).finished[k],
        v.stop_at is Some ==> v.after(event).stop_at == v.stop_at,
        !(event is Shutdown) ==> v.after(event).stop_at == v.stop_at,
{
    let w = v.after(event);
    assert(v.accepted =~= w.accepted.subrange(0, v.accepted.len() as int));
    assert(v.recipients =~= w.recipients.subrange(0, v.recipients.len() as int));
    assert forall|k: int| 0 <= k < v.delivered() && v.finished[k] implies #[trigger] w.finished[k] by {
        match event {
            Event::Finish(id) => {
                if 0 <= id < v.size() && v.states[id] == WorkerState::Executing {
                    assert(v.running[id] is Some);
                }
            },
            _ => {},
        }
    }
}

} // verus!
