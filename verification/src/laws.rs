//! The pool's delivery guarantees, stated and proved once over any
//! well-formed pool, whatever sequence of events produced it.

use crate::pool::ThreadPool;
use crate::worker::{executing_jobs, lemma_executing_jobs_none, lemma_num_faulted_none};
use vstd::multiset::{lemma_multiset_empty_len, Multiset};
use vstd::prelude::*;
use vstd::seq_lib::group_to_multiset_ensures;

verus! {

/// Every submission is accounted for in exactly one place: as often as a job
/// was submitted, so often it is — in total — still queued, executing on some
/// worker, completed, lost to a fault, or discarded.  Jobs are never
/// duplicated and never silently dropped.
pub proof fn lemma_job_conservation(pool: ThreadPool, job: u64)
    requires
        pool.wf(),
    ensures
        pool.submitted@.to_multiset().count(job) == pool.queue@.to_multiset().count(job)
            + executing_jobs(pool.workers@).count(job) + pool.completed@.to_multiset().count(job)
            + pool.faulted@.to_multiset().count(job) + pool.discarded@.to_multiset().count(job),
{
    assert(pool.submitted@.to_multiset().count(job) == pool.accounted().count(job));
}

/// A job is completed at most as often as it was submitted: a worker never
/// runs the same submission twice, and two workers never run it both.
pub proof fn lemma_no_duplicate_execution(pool: ThreadPool, job: u64)
    requires
        pool.wf(),
    ensures
        pool.completed@.to_multiset().count(job) <= pool.submitted@.to_multiset().count(job),
{
    lemma_job_conservation(pool, job);
}

/// A job submitted once is executed by at most one worker at any time:
/// jobs are handed over, never copied.
pub proof fn lemma_at_most_one_worker_executes(pool: ThreadPool, job: u64)
    requires
        pool.wf(),
        pool.submitted@.to_multiset().count(job) == 1,
    ensures
        executing_jobs(pool.workers@).count(job) <= 1,
{
    lemma_job_conservation(pool, job);
}

/// When teardown has run to its end — every worker joined — and no worker
/// faulted on the way, every job ever submitted has been run to completion,
/// each exactly as often as it was submitted: nothing is left queued or
/// executing, nothing was lost, nothing was discarded.
pub proof fn lemma_teardown_complete(pool: ThreadPool)
    requires
        pool.wf(),
        forall|i: int|
            0 <= i < pool.workers@.len() ==> !(#[trigger] pool.workers@[i]).handle_present,
        forall|i: int|
            0 <= i < pool.workers@.len() ==> !((#[trigger] pool.workers@[i]).phase is Faulted),
    ensures
        pool.queue@.len() == 0,
        pool.completed@.to_multiset() == pool.submitted@.to_multiset(),
        pool.completed@.len() == pool.submitted@.len(),
{
    broadcast use group_to_multiset_ensures;

    assert(forall|i: int|
        0 <= i < pool.workers@.len() ==> (#[trigger] pool.workers@[i]).phase is Stopped);
    assert(pool.workers@[0].phase is Stopped);
    lemma_executing_jobs_none(pool.workers@);
    lemma_num_faulted_none(pool.workers@);
    assert(pool.faulted@.len() == 0);
    assert(pool.discarded@.len() == 0);
    lemma_multiset_empty_len(pool.queue@.to_multiset());
    lemma_multiset_empty_len(pool.faulted@.to_multiset());
    lemma_multiset_empty_len(pool.discarded@.to_multiset());
    assert forall|x: u64|
        pool.completed@.to_multiset().count(x) == pool.submitted@.to_multiset().count(x) by {
        lemma_job_conservation(pool, x);
    }
    assert(pool.completed@.to_multiset() =~= pool.submitted@.to_multiset());
    assert(pool.completed@.to_multiset().len() == pool.submitted@.to_multiset().len());
}

/// Once every worker has been joined, nothing is running any more, and the
/// ledgers tell the whole story: faults included, every submission is either
/// still queued (awaiting its discard), completed, lost with its worker, or
/// already discarded.
pub proof fn lemma_joined_pool_has_nothing_in_flight(pool: ThreadPool)
    requires
        pool.wf(),
        forall|i: int|
            0 <= i < pool.workers@.len() ==> !(#[trigger] pool.workers@[i]).handle_present,
    ensures
        executing_jobs(pool.workers@) == Multiset::<u64>::empty(),
        forall|job: u64|
            pool.submitted@.to_multiset().count(job) == pool.queue@.to_multiset().count(job)
                + pool.completed@.to_multiset().count(job) + pool.faulted@.to_multiset().count(job)
                + pool.discarded@.to_multiset().count(job),
{
    lemma_executing_jobs_none(pool.workers@);
    assert forall|job: u64|
        pool.submitted@.to_multiset().count(job) == pool.queue@.to_multiset().count(job)
            + pool.completed@.to_multiset().count(job) + pool.faulted@.to_multiset().count(job)
            + pool.discarded@.to_multiset().count(job) by {
        lemma_job_conservation(pool, job);
    }
}

/// The headline guarantee for independent jobs: submit any number of
/// distinct jobs, tear the pool down, and — faults aside — each of them has
/// been executed exactly once.
pub proof fn lemma_distinct_jobs_complete_exactly_once(pool: ThreadPool)
    requires
        pool.wf(),
        forall|i: int|
            0 <= i < pool.workers@.len() ==> !(#[trigger] pool.workers@[i]).handle_present,
        forall|i: int|
            0 <= i < pool.workers@.len() ==> !((#[trigger] pool.workers@[i]).phase is Faulted),
        pool.submitted@.no_duplicates(),
    ensures
        pool.completed@.no_duplicates(),
        forall|job: u64|
            pool.submitted@.contains(job) ==> pool.completed@.to_multiset().count(job) == 1,
{
    broadcast use group_to_multiset_ensures;

    lemma_teardown_complete(pool);
    pool.submitted@.lemma_multiset_has_no_duplicates();
    assert forall|job: u64| pool.submitted@.contains(job) implies pool.completed@.to_multiset().count(
        job,
    ) == 1 by {
        assert(pool.submitted@.to_multiset().contains(job));
    }
    pool.completed@.lemma_multiset_has_no_duplicates_conv();
}

} // verus!
