//! A fixed-size worker pool, written as a verified core.
//!
//! The pool is a plain owned value. It holds the queue of control messages,
//! the state of every worker and the bookkeeping of its shutdown. Threads,
//! locks and blocking live with the caller: a caller wraps the pool in
//! whatever mutual exclusion it uses, and asks the pool what to do at each
//! event (a job is submitted, a worker wants its next message, a job has run
//! to its end, the pool is torn down).
//!
//! - `pool`: the pool and its operations.
//! - `worker`, `message`: one worker's states, and what passes between the
//!   pool and its workers.
//! - `model`: the pool as a mathematical value, and what holds of every pool.
//! - `laws`: what follows from that for every pool that can be reached.
//! - `http`: the request lines and the response of the small web server that
//!   the pool was made for.
pub mod http;
pub mod laws;
pub mod message;
pub mod model;
pub mod pool;
pub mod worker;
