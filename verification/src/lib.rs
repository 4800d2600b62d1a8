//! A fixed-size worker pool, verified as a state machine over plain values.
//!
//! The pool owns a set of workers and a FIFO job queue.  Producers hand jobs
//! (identified by numeric labels) to the pool; idle workers take the front of
//! the queue, run the job, and report back.  Teardown closes the queue, lets
//! the workers drain it, and then joins every worker in id order.
//!
//! The host process that runs real threads drives this model: every event of
//! the real pool (a submission, a worker picking a job up, a job finishing or
//! faulting, the queue closing, a thread being joined) is one method call
//! here, and the contracts pin down what each event does to the pool's state.

pub mod laws;
pub mod pool;
pub mod worker;

pub use pool::ThreadPool;
