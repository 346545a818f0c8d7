use std::cell::RefCell;
use std::rc::Rc;

use worker_pool::message::{Action, PoolError};
use worker_pool::pool::ThreadPool;
use worker_pool::worker::WorkerState;

type Job = Box<dyn FnOnce()>;

/// Lets the worker `id` take its next message and, if it is a job, run it to
/// its end. Returns whether the worker is still in its loop.
fn turn(pool: &mut ThreadPool<Job>, id: usize) -> bool {
    match pool.receive(id) {
        Ok(Action::Run(job)) => {
            job();
            assert_eq!(pool.finish(id), Ok(()));
            true
        }
        Ok(Action::Wait) => true,
        Ok(Action::Exit) => false,
        Err(_) => false,
    }
}

/// Tears the pool down as its owner does: the stop signals first, then every
/// worker runs until it has left its loop.
fn drain(pool: &mut ThreadPool<Job>) -> Vec<usize> {
    let to_join = pool.shutdown();
    for &id in &to_join {
        while turn(pool, id) {}
    }
    to_join
}

#[test]
fn new_gives_each_worker_its_own_id() {
    for size in [1usize, 2, 4, 17] {
        let pool: ThreadPool<Job> = ThreadPool::new(size);
        assert_eq!(pool.size(), size);
        let ids = pool.worker_ids();
        assert_eq!(ids, (0..size).collect::<Vec<usize>>());
        for id in 0..size {
            assert_eq!(pool.state_of(id), Some(WorkerState::Idle));
        }
        assert_eq!(pool.state_of(size), None);
        assert_eq!(pool.pending(), 0);
        assert!(!pool.is_stopping());
        assert!(!pool.is_closed());
    }
}

#[test]
fn empty_queue_tells_the_worker_to_wait() {
    let mut pool: ThreadPool<u32> = ThreadPool::new(2);
    assert!(matches!(pool.receive(0), Ok(Action::Wait)));
    assert_eq!(pool.state_of(0), Some(WorkerState::Idle));
    assert_eq!(pool.pending(), 0);
}

#[test]
fn a_job_goes_to_one_worker_only() {
    let mut pool: ThreadPool<u32> = ThreadPool::new(3);
    assert_eq!(pool.execute(41), Ok(()));
    assert_eq!(pool.pending(), 1);
    assert!(matches!(pool.receive(1), Ok(Action::Run(41))));
    assert_eq!(pool.state_of(1), Some(WorkerState::Executing));
    assert_eq!(pool.pending(), 0);
    assert!(matches!(pool.receive(0), Ok(Action::Wait)));
    assert!(matches!(pool.receive(2), Ok(Action::Wait)));
    assert_eq!(pool.state_of(0), Some(WorkerState::Idle));
    assert_eq!(pool.state_of(2), Some(WorkerState::Idle));
    assert_eq!(pool.finish(1), Ok(()));
    assert_eq!(pool.state_of(1), Some(WorkerState::Idle));
}

#[test]
fn jobs_leave_the_queue_in_the_order_of_submission() {
    let mut pool: ThreadPool<u32> = ThreadPool::new(2);
    for job in [10u32, 20, 30, 40] {
        assert_eq!(pool.execute(job), Ok(()));
    }
    assert!(matches!(pool.receive(1), Ok(Action::Run(10))));
    assert!(matches!(pool.receive(0), Ok(Action::Run(20))));
    assert_eq!(pool.finish(0), Ok(()));
    assert!(matches!(pool.receive(0), Ok(Action::Run(30))));
    assert_eq!(pool.finish(1), Ok(()));
    assert!(matches!(pool.receive(1), Ok(Action::Run(40))));
    assert_eq!(pool.pending(), 0);
}

#[test]
fn every_job_runs_exactly_once() {
    for (size, jobs) in [(1usize, 1usize), (1, 5), (3, 3), (3, 10), (4, 25)] {
        let runs = Rc::new(RefCell::new(vec![0u32; jobs]));
        let mut pool: ThreadPool<Job> = ThreadPool::new(size);
        for index in 0..jobs {
            let runs = Rc::clone(&runs);
            let job: Job = Box::new(move || runs.borrow_mut()[index] += 1);
            assert_eq!(pool.execute(job), Ok(()));
        }
        let mut id = 0;
        while pool.pending() > 0 {
            assert!(turn(&mut pool, id));
            id = (id + 1) % size;
        }
        assert_eq!(*runs.borrow(), vec![1u32; jobs]);
    }
}

#[test]
fn counter_reaches_the_number_of_jobs_after_teardown() {
    for (size, jobs) in [(1usize, 4u32), (2, 2), (3, 8), (4, 9)] {
        let counter = Rc::new(RefCell::new(0u32));
        let mut pool: ThreadPool<Job> = ThreadPool::new(size);
        for _ in 0..jobs {
            let counter = Rc::clone(&counter);
            let job: Job = Box::new(move || *counter.borrow_mut() += 1);
            assert_eq!(pool.execute(job), Ok(()));
        }
        let joined = drain(&mut pool);
        assert_eq!(joined.len(), size);
        assert_eq!(*counter.borrow(), jobs);
        assert!(pool.is_closed());
        assert_eq!(pool.pending(), 0);
    }
}

#[test]
fn shutdown_sends_one_stop_for_each_worker() {
    let mut pool: ThreadPool<u32> = ThreadPool::new(3);
    assert_eq!(pool.execute(5), Ok(()));
    let to_join = pool.shutdown();
    assert_eq!(to_join, vec![0, 1, 2]);
    assert!(pool.is_stopping());
    assert_eq!(pool.pending(), 4);
    assert!(matches!(pool.receive(2), Ok(Action::Run(5))));
    assert_eq!(pool.finish(2), Ok(()));
    assert!(matches!(pool.receive(0), Ok(Action::Exit)));
    assert_eq!(pool.state_of(0), Some(WorkerState::Terminated));
    assert!(!pool.is_closed());
    assert!(matches!(pool.receive(2), Ok(Action::Exit)));
    assert!(!pool.is_closed());
    assert_eq!(pool.pending(), 1);
    assert!(matches!(pool.receive(1), Ok(Action::Exit)));
    assert!(pool.is_closed());
    assert_eq!(pool.pending(), 0);
    for id in 0..3 {
        assert_eq!(pool.state_of(id), Some(WorkerState::Terminated));
    }
}

#[test]
fn second_shutdown_is_a_no_op() {
    let mut pool: ThreadPool<u32> = ThreadPool::new(2);
    assert_eq!(pool.shutdown(), vec![0, 1]);
    assert_eq!(pool.pending(), 2);
    assert_eq!(pool.shutdown(), Vec::<usize>::new());
    assert_eq!(pool.pending(), 2);
    assert!(pool.is_stopping());
    assert!(matches!(pool.receive(0), Ok(Action::Exit)));
    assert!(matches!(pool.receive(1), Ok(Action::Exit)));
    assert_eq!(pool.shutdown(), Vec::<usize>::new());
    assert_eq!(pool.pending(), 0);
}

#[test]
fn a_stopped_worker_takes_nothing_more() {
    let mut pool: ThreadPool<u32> = ThreadPool::new(2);
    assert_eq!(pool.shutdown(), vec![0, 1]);
    assert_eq!(pool.execute(9), Ok(()));
    assert!(matches!(pool.receive(0), Ok(Action::Exit)));
    assert_eq!(pool.receive(0).err(), Some(PoolError::NotIdle));
    assert_eq!(pool.state_of(0), Some(WorkerState::Terminated));
    assert_eq!(pool.pending(), 2);
    assert!(matches!(pool.receive(1), Ok(Action::Exit)));
    assert_eq!(pool.pending(), 1);
    assert!(pool.is_closed());
    assert_eq!(pool.receive(1).err(), Some(PoolError::NotIdle));
    assert_eq!(pool.pending(), 1);
}

#[test]
fn submitting_to_a_closed_pool_fails() {
    let mut pool: ThreadPool<u32> = ThreadPool::new(1);
    assert_eq!(pool.execute(1), Ok(()));
    assert_eq!(pool.shutdown(), vec![0]);
    assert_eq!(pool.execute(2), Ok(()));
    assert!(matches!(pool.receive(0), Ok(Action::Run(1))));
    assert_eq!(pool.finish(0), Ok(()));
    assert!(matches!(pool.receive(0), Ok(Action::Exit)));
    assert!(pool.is_closed());
    assert_eq!(pool.pending(), 1);
    assert_eq!(pool.execute(3), Err(PoolError::Closed));
    assert_eq!(pool.pending(), 1);
}

#[test]
fn unknown_worker_is_turned_down() {
    let mut pool: ThreadPool<u32> = ThreadPool::new(2);
    assert_eq!(pool.execute(1), Ok(()));
    assert_eq!(pool.receive(2).err(), Some(PoolError::NoSuchWorker));
    assert_eq!(pool.receive(usize::MAX).err(), Some(PoolError::NoSuchWorker));
    assert_eq!(pool.finish(2), Err(PoolError::NoSuchWorker));
    assert_eq!(pool.pending(), 1);
}

#[test]
fn busy_worker_cannot_receive_and_idle_worker_cannot_finish() {
    let mut pool: ThreadPool<u32> = ThreadPool::new(1);
    assert_eq!(pool.finish(0), Err(PoolError::NotExecuting));
    assert_eq!(pool.execute(1), Ok(()));
    assert_eq!(pool.execute(2), Ok(()));
    assert!(matches!(pool.receive(0), Ok(Action::Run(1))));
    assert_eq!(pool.receive(0).err(), Some(PoolError::NotIdle));
    assert_eq!(pool.pending(), 1);
    assert_eq!(pool.finish(0), Ok(()));
    assert_eq!(pool.finish(0), Err(PoolError::NotExecuting));
    assert_eq!(pool.shutdown(), vec![0]);
    assert!(matches!(pool.receive(0), Ok(Action::Run(2))));
    assert_eq!(pool.finish(0), Ok(()));
    assert!(matches!(pool.receive(0), Ok(Action::Exit)));
    assert_eq!(pool.finish(0), Err(PoolError::NotExecuting));
}

#[test]
fn one_job_more_than_workers_leaves_one_pending() {
    let size = 3usize;
    let mut pool: ThreadPool<u32> = ThreadPool::new(size);
    for job in 0..(size as u32 + 1) {
        assert_eq!(pool.execute(job), Ok(()));
    }
    for id in 0..size {
        assert!(matches!(pool.receive(id), Ok(Action::Run(_))));
    }
    assert_eq!(pool.pending(), 1);
    for id in 0..size {
        assert_eq!(pool.state_of(id), Some(WorkerState::Executing));
        assert_eq!(pool.receive(id).err(), Some(PoolError::NotIdle));
    }
    assert_eq!(pool.pending(), 1);
    assert_eq!(pool.finish(1), Ok(()));
    assert!(matches!(pool.receive(1), Ok(Action::Run(3))));
    assert_eq!(pool.pending(), 0);
}

#[test]
fn two_workers_three_jobs() {
    let log: Rc<RefCell<Vec<&'static str>>> = Rc::new(RefCell::new(Vec::new()));
    let mut pool: ThreadPool<Job> = ThreadPool::new(2);
    for name in ["A", "B", "C"] {
        let log = Rc::clone(&log);
        let job: Job = Box::new(move || log.borrow_mut().push(name));
        assert_eq!(pool.execute(job), Ok(()));
    }
    // A and B start, one on each worker; C waits for a free worker.
    let a = match pool.receive(0) {
        Ok(Action::Run(job)) => job,
        _ => panic!("worker 0 gets the first job"),
    };
    let b = match pool.receive(1) {
        Ok(Action::Run(job)) => job,
        _ => panic!("worker 1 gets the second job"),
    };
    assert_eq!(pool.pending(), 1);
    assert_eq!(pool.receive(0).err(), Some(PoolError::NotIdle));
    assert_eq!(pool.receive(1).err(), Some(PoolError::NotIdle));
    // A is quick, B is slow: the worker of A is the one that takes C.
    a();
    assert_eq!(pool.finish(0), Ok(()));
    assert!(turn(&mut pool, 0));
    b();
    assert_eq!(pool.finish(1), Ok(()));
    assert_eq!(drain(&mut pool), vec![0, 1]);
    assert_eq!(*log.borrow(), vec!["A", "C", "B"]);
    let mut seen = log.borrow().clone();
    seen.sort();
    assert_eq!(seen, vec!["A", "B", "C"]);
}

#[test]
fn single_worker_runs_jobs_in_submission_order() {
    let list = Rc::new(RefCell::new(Vec::<usize>::new()));
    let mut pool: ThreadPool<Job> = ThreadPool::new(1);
    for index in 0..3usize {
        let list = Rc::clone(&list);
        let job: Job = Box::new(move || list.borrow_mut().push(index));
        assert_eq!(pool.execute(job), Ok(()));
    }
    assert_eq!(drain(&mut pool), vec![0]);
    assert_eq!(*list.borrow(), vec![0, 1, 2]);
    assert!(pool.is_closed());
}

#[test]
fn a_failed_job_leaves_its_worker_in_the_loop() {
    let mut pool: ThreadPool<Result<u32, &'static str>> = ThreadPool::new(1);
    assert_eq!(pool.execute(Err("broken")), Ok(()));
    assert_eq!(pool.execute(Ok(3)), Ok(()));
    assert!(matches!(pool.receive(0), Ok(Action::Run(Err("broken")))));
    assert_eq!(pool.finish(0), Ok(()));
    assert_eq!(pool.state_of(0), Some(WorkerState::Idle));
    assert!(matches!(pool.receive(0), Ok(Action::Run(Ok(3)))));
}
