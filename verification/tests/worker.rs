use worker_pool::message::Message;
use worker_pool::worker::{Worker, WorkerState};

#[test]
fn worker_starts_idle_with_its_id() {
    let worker = Worker::new(7);
    assert_eq!(worker.id(), 7);
    assert_eq!(worker.state(), WorkerState::Idle);
}

#[test]
fn worker_runs_a_job_and_waits_again() {
    let mut worker = Worker::new(0);
    assert_eq!(worker.on_message(Message::NewJob(12u8)), Some(12u8));
    assert_eq!(worker.state(), WorkerState::Executing);
    worker.on_job_done();
    assert_eq!(worker.state(), WorkerState::Idle);
    assert_eq!(worker.id(), 0);
}

#[test]
fn worker_terminates_on_the_order_to_terminate() {
    let mut worker = Worker::new(3);
    assert_eq!(worker.on_message(Message::<u8>::Terminate), None);
    assert_eq!(worker.state(), WorkerState::Terminated);
    assert_eq!(worker.id(), 3);
}
