//! The pool: owner of the workers, the job queue, and the ledgers that the
//! contracts are stated over.

use crate::worker::{
    executing_jobs, lemma_executing_jobs_push, lemma_executing_jobs_update, lemma_num_faulted_push,
    lemma_num_faulted_update, num_faulted, phase_jobs, Phase, Worker,
};
use vstd::multiset::Multiset;
use vstd::prelude::*;

verus! {

/// A fixed-size worker pool, modelled over plain values.
///
/// Jobs are numeric labels chosen by the caller; the pool records every
/// submission and tracks where each job currently is: still queued, executing
/// on exactly one worker, completed, lost with a faulted worker, or discarded
/// when the pool was torn down while no worker was left to deliver it to.
pub struct ThreadPool {
    /// The workers, in id order; fixed at construction.
    pub workers: Vec<Worker>,
    /// Whether the sending end of the queue is still held; closing it is the
    /// first step of teardown, after which nothing can be submitted.
    pub sender_open: bool,
    /// Jobs submitted but not yet taken by any worker, in FIFO order.
    pub queue: Vec<u64>,
    /// Every job ever submitted, in submission order.
    pub submitted: Vec<u64>,
    /// Jobs that some worker ran to completion, in completion order.
    pub completed: Vec<u64>,
    /// Jobs whose execution brought their worker down.
    pub faulted: Vec<u64>,
    /// Jobs still queued when the queue was finally dropped.
    pub discarded: Vec<u64>,
}

impl ThreadPool {
    /// Everywhere a submitted job can currently be, with multiplicity.
    pub open spec fn accounted(self) -> Multiset<u64> {
        self.queue@.to_multiset().add(executing_jobs(self.workers@)).add(
            self.completed@.to_multiset(),
        ).add(self.faulted@.to_multiset()).add(self.discarded@.to_multiset())
    }

    /// The pool's invariant, established by `new` and preserved by every
    /// operation:
    /// - the pool is never empty, and worker ids are their positions;
    /// - a worker's handle is given up only once the worker has exited,
    ///   gracefully or by fault;
    /// - a worker stops gracefully only once the queue is closed and drained,
    ///   so jobs can never be left behind by a graceful exit;
    /// - the fault ledger counts exactly the faulted workers, and jobs are
    ///   discarded only when a fault left nobody to deliver them to;
    /// - every submitted job is accounted for in exactly one place.
    pub open spec fn wf(self) -> bool {
        &&& self.workers@.len() > 0
        &&& forall|i: int| 0 <= i < self.workers@.len() ==> (#[trigger] self.workers@[i]).id == i
        &&& forall|i: int|
            0 <= i < self.workers@.len() ==> !(#[trigger] self.workers@[i]).handle_present ==> (
            (self.workers@[i].phase is Stopped) || (self.workers@[i].phase is Faulted))
        &&& forall|i: int|
            0 <= i < self.workers@.len() ==> ((#[trigger] self.workers@[i]).phase is Stopped) ==> (
            !self.sender_open && self.queue@.len() == 0)
        &&& self.faulted@.len() == num_faulted(self.workers@)
        &&& self.discarded@.len() > 0 ==> exists|i: int|
            0 <= i < self.workers@.len() && (#[trigger] self.workers@[i]).phase is Faulted
        &&& self.submitted@.to_multiset() == self.accounted()
    }

    /// Create a pool of `size` workers, ids `0..size`, all idle, with an
    /// open, empty queue and empty ledgers.  A pool of zero workers is a
    /// contract violation of the caller; the host asserts before calling.
    pub fn new(size: usize) -> (pool: ThreadPool)
        requires
            size > 0,
        ensures
            pool.wf(),
            pool.workers@.len() == size,
            forall|i: int| 0 <= i < size ==> (#[trigger] pool.workers@[i]).phase is Idle,
            forall|i: int| 0 <= i < size ==> (#[trigger] pool.workers@[i]).handle_present,
            pool.sender_open,
            pool.queue@.len() == 0,
            pool.submitted@.len() == 0,
            pool.completed@.len() == 0,
            pool.faulted@.len() == 0,
            pool.discarded@.len() == 0,
    {
        let mut workers: Vec<Worker> = Vec::new();
        let mut id: usize = 0;
        while id < size
            invariant
                id <= size,
                workers@.len() == id,
                forall|i: int| 0 <= i < id ==> (#[trigger] workers@[i]).id == i,
                forall|i: int| 0 <= i < id ==> (#[trigger] workers@[i]).phase is Idle,
                forall|i: int| 0 <= i < id ==> (#[trigger] workers@[i]).handle_present,
                executing_jobs(workers@) == Multiset::<u64>::empty(),
                num_faulted(workers@) == 0,
            decreases size - id,
        {
            let w = Worker { id, phase: Phase::Idle, handle_present: true };
            proof {
                lemma_executing_jobs_push(workers@, w);
                lemma_num_faulted_push(workers@, w);
                assert(executing_jobs(workers@.push(w)) =~= Multiset::<u64>::empty());
            }
            workers.push(w);
            id = id + 1;
        }
        let pool = ThreadPool {
            workers,
            sender_open: true,
            queue: Vec::new(),
            submitted: Vec::new(),
            completed: Vec::new(),
            faulted: Vec::new(),
            discarded: Vec::new(),
        };
        proof {
            assert(pool.submitted@.to_multiset() =~= pool.accounted()) by {
                broadcast use vstd::seq_lib::group_to_multiset_ensures;

            }
        }
        pool
    }

    /// Submit a job while the pool is accepting: the job goes to the back of
    /// the queue and is recorded in the submission ledger.  Submitting after
    /// teardown has begun is a contract violation of the caller; the host
    /// checks `is_open` and fails loudly instead of dropping the job.
    pub fn execute(&mut self, job: u64)
        requires
            old(self).wf(),
            old(self).sender_open,
        ensures
            final(self).wf(),
            final(self).queue@ == old(self).queue@.push(job),
            final(self).submitted@ == old(self).submitted@.push(job),
            final(self).workers@ == old(self).workers@,
            final(self).sender_open == old(self).sender_open,
            final(self).completed@ == old(self).completed@,
            final(self).faulted@ == old(self).faulted@,
            final(self).discarded@ == old(self).discarded@,
    {
        self.queue.push(job);
        self.submitted.push(job);
        proof {
            broadcast use vstd::seq_lib::group_to_multiset_ensures;

            assert forall|i: int| 0 <= i < self.workers@.len() implies !((
            #[trigger] self.workers@[i]).phase is Stopped) by {
                assert(old(self).workers@[i].phase is Stopped ==> !old(self).sender_open);
            }
            if self.discarded@.len() > 0 {
                let i0 = choose|i: int|
                    0 <= i < old(self).workers@.len() && (#[trigger] old(
                        self,
                    ).workers@[i]).phase is Faulted;
                assert(self.workers@[i0].phase is Faulted);
            }
            assert(self.submitted@.to_multiset() =~= self.accounted());
        }
    }

    /// An idle worker takes the job at the front of the queue and starts
    /// executing it: the job leaves the queue and is now held by exactly
    /// this worker.
    pub fn take_job(&mut self, worker: usize) -> (job: u64)
        requires
            old(self).wf(),
            worker < old(self).workers@.len(),
            old(self).workers@[worker as int].phase is Idle,
            old(self).queue@.len() > 0,
        ensures
            final(self).wf(),
            job == old(self).queue@[0],
            final(self).queue@ == old(self).queue@.remove(0),
            final(self).workers@ == old(self).workers@.update(
                worker as int,
                (Worker { id: worker, phase: (Phase::Executing { job }), handle_present: true }),
            ),
            final(self).sender_open == old(self).sender_open,
            final(self).submitted@ == old(self).submitted@,
            final(self).completed@ == old(self).completed@,
            final(self).faulted@ == old(self).faulted@,
            final(self).discarded@ == old(self).discarded@,
    {
        let job = self.queue.remove(0);
        let w = Worker { id: worker, phase: Phase::Executing { job }, handle_present: true };
        proof {
            assert(old(self).workers@[worker as int].handle_present);
            assert(old(self).workers@[worker as int] == (Worker {
                id: worker,
                phase: Phase::Idle,
                handle_present: true,
            }));
        }
        self.workers[worker] = w;
        proof {
            broadcast use vstd::seq_lib::group_to_multiset_ensures;

            lemma_executing_jobs_update(old(self).workers@, worker as int, w);
            lemma_num_faulted_update(old(self).workers@, worker as int, w);
            assert forall|i: int| 0 <= i < self.workers@.len() implies !((
            #[trigger] self.workers@[i]).phase is Stopped) by {
                assert(old(self).workers@[i].phase is Stopped ==> old(self).queue@.len() == 0);
            }
            assert(old(self).queue@.contains(job));
            assert forall|x: u64|
                self.submitted@.to_multiset().count(x) == self.accounted().count(x) by {
                assert(executing_jobs(self.workers@).add(phase_jobs(Phase::Idle)).count(x)
                    == executing_jobs(old(self).workers@).add(phase_jobs(w.phase)).count(x));
                assert(old(self).submitted@.to_multiset().count(x) == old(
                    self,
                ).accounted().count(x));
            }
            if self.discarded@.len() > 0 {
                let i0 = choose|i: int|
                    0 <= i < old(self).workers@.len() && (#[trigger] old(
                        self,
                    ).workers@[i]).phase is Faulted;
                assert(self.workers@[i0].phase is Faulted);
            }
            assert(self.submitted@.to_multiset() =~= self.accounted());
        }
        job
    }

    /// The worker runs its job to completion and goes back to waiting: the
    /// job moves from the worker to the completion ledger, exactly once.
    pub fn finish_job(&mut self, worker: usize)
        requires
            old(self).wf(),
            worker < old(self).workers@.len(),
            old(self).workers@[worker as int].phase is Executing,
        ensures
            final(self).wf(),
            final(self).completed@ == old(self).completed@.push(
                old(self).workers@[worker as int].phase->job,
            ),
            final(self).workers@ == old(self).workers@.update(
                worker as int,
                (Worker { id: worker, phase: Phase::Idle, handle_present: true }),
            ),
            final(self).sender_open == old(self).sender_open,
            final(self).queue@ == old(self).queue@,
            final(self).submitted@ == old(self).submitted@,
            final(self).faulted@ == old(self).faulted@,
            final(self).discarded@ == old(self).discarded@,
    {
        let current = self.workers[worker];
        let job = match current.phase {
            Phase::Executing { job } => job,
            _ => 0,
        };
        let w = Worker { id: worker, phase: Phase::Idle, handle_present: true };
        proof {
            assert(old(self).workers@[worker as int].handle_present);
            assert(old(self).workers@[worker as int] == (Worker {
                id: worker,
                phase: (Phase::Executing { job }),
                handle_present: true,
            }));
        }
        self.workers[worker] = w;
        self.completed.push(job);
        proof {
            broadcast use vstd::seq_lib::group_to_multiset_ensures;

            lemma_executing_jobs_update(old(self).workers@, worker as int, w);
            lemma_num_faulted_update(old(self).workers@, worker as int, w);
            assert forall|i: int|
                0 <= i < self.workers@.len() && (#[trigger] self.workers@[i]).phase
                    is Stopped implies (!self.sender_open && self.queue@.len() == 0) by {
                assert(old(self).workers@[i].phase is Stopped);
            }
            assert forall|x: u64|
                self.submitted@.to_multiset().count(x) == self.accounted().count(x) by {
                assert(executing_jobs(self.workers@).add(
                    phase_jobs((Phase::Executing { job })),
                ).count(x) == executing_jobs(old(self).workers@).add(
                    phase_jobs(Phase::Idle),
                ).count(x));
                assert(old(self).submitted@.to_multiset().count(x) == old(
                    self,
                ).accounted().count(x));
            }
            if self.discarded@.len() > 0 {
                let i0 = choose|i: int|
                    0 <= i < old(self).workers@.len() && (#[trigger] old(
                        self,
                    ).workers@[i]).phase is Faulted;
                assert(self.workers@[i0].phase is Faulted);
            }
            assert(self.submitted@.to_multiset() =~= self.accounted());
        }
    }

    /// The worker's job brings it down: the worker is permanently gone (its
    /// phase is terminal), the job is recorded as lost, and every other
    /// worker, the queue, and the ledgers are untouched — one fault costs
    /// exactly one worker's capacity and nothing else.
    pub fn fault_job(&mut self, worker: usize)
        requires
            old(self).wf(),
            worker < old(self).workers@.len(),
            old(self).workers@[worker as int].phase is Executing,
        ensures
            final(self).wf(),
            final(self).faulted@ == old(self).faulted@.push(
                old(self).workers@[worker as int].phase->job,
            ),
            final(self).workers@ == old(self).workers@.update(
                worker as int,
                (Worker { id: worker, phase: Phase::Faulted, handle_present: true }),
            ),
            final(self).sender_open == old(self).sender_open,
            final(self).queue@ == old(self).queue@,
            final(self).submitted@ == old(self).submitted@,
            final(self).completed@ == old(self).completed@,
            final(self).discarded@ == old(self).discarded@,
    {
        let current = self.workers[worker];
        let job = match current.phase {
            Phase::Executing { job } => job,
            _ => 0,
        };
        let w = Worker { id: worker, phase: Phase::Faulted, handle_present: true };
        proof {
            assert(old(self).workers@[worker as int].handle_present);
            assert(old(self).workers@[worker as int] == (Worker {
                id: worker,
                phase: (Phase::Executing { job }),
                handle_present: true,
            }));
        }
        self.workers[worker] = w;
        self.faulted.push(job);
        proof {
            broadcast use vstd::seq_lib::group_to_multiset_ensures;

            lemma_executing_jobs_update(old(self).workers@, worker as int, w);
            lemma_num_faulted_update(old(self).workers@, worker as int, w);
            assert forall|i: int|
                0 <= i < self.workers@.len() && (#[trigger] self.workers@[i]).phase
                    is Stopped implies (!self.sender_open && self.queue@.len() == 0) by {
                assert(old(self).workers@[i].phase is Stopped);
            }
            assert forall|x: u64|
                self.submitted@.to_multiset().count(x) == self.accounted().count(x) by {
                assert(executing_jobs(self.workers@).add(
                    phase_jobs((Phase::Executing { job })),
                ).count(x) == executing_jobs(old(self).workers@).add(
                    phase_jobs(Phase::Faulted),
                ).count(x));
                assert(old(self).submitted@.to_multiset().count(x) == old(
                    self,
                ).accounted().count(x));
            }
            if self.discarded@.len() > 0 {
                let i0 = choose|i: int|
                    0 <= i < old(self).workers@.len() && (#[trigger] old(
                        self,
                    ).workers@[i]).phase is Faulted;
                assert(self.workers@[i0].phase is Faulted);
            }
            assert(self.submitted@.to_multiset() =~= self.accounted());
        }
    }

    /// The first step of teardown: give up the sending end of the queue.
    /// Nothing can be submitted any more; jobs already queued stay and will
    /// still be delivered to idle workers.  Closing twice is a contract
    /// violation of the caller.
    pub fn close(&mut self)
        requires
            old(self).wf(),
            old(self).sender_open,
        ensures
            final(self).wf(),
            !final(self).sender_open,
            final(self).workers@ == old(self).workers@,
            final(self).queue@ == old(self).queue@,
            final(self).submitted@ == old(self).submitted@,
            final(self).completed@ == old(self).completed@,
            final(self).faulted@ == old(self).faulted@,
            final(self).discarded@ == old(self).discarded@,
    {
        self.sender_open = false;
    }

    /// An idle worker sees the queue closed and drained, and exits its loop
    /// gracefully.  This is the only way a worker stops without a fault, so
    /// a stopped worker proves there was nothing left to run.
    pub fn observe_closed(&mut self, worker: usize)
        requires
            old(self).wf(),
            worker < old(self).workers@.len(),
            old(self).workers@[worker as int].phase is Idle,
            !old(self).sender_open,
            old(self).queue@.len() == 0,
        ensures
            final(self).wf(),
            final(self).workers@ == old(self).workers@.update(
                worker as int,
                (Worker { id: worker, phase: Phase::Stopped, handle_present: true }),
            ),
            final(self).sender_open == old(self).sender_open,
            final(self).queue@ == old(self).queue@,
            final(self).submitted@ == old(self).submitted@,
            final(self).completed@ == old(self).completed@,
            final(self).faulted@ == old(self).faulted@,
            final(self).discarded@ == old(self).discarded@,
    {
        let w = Worker { id: worker, phase: Phase::Stopped, handle_present: true };
        proof {
            assert(old(self).workers@[worker as int].handle_present);
            assert(old(self).workers@[worker as int] == (Worker {
                id: worker,
                phase: Phase::Idle,
                handle_present: true,
            }));
        }
        self.workers[worker] = w;
        proof {
            lemma_executing_jobs_update(old(self).workers@, worker as int, w);
            lemma_num_faulted_update(old(self).workers@, worker as int, w);
            assert forall|x: u64|
                self.submitted@.to_multiset().count(x) == self.accounted().count(x) by {
                assert(executing_jobs(self.workers@).add(phase_jobs(Phase::Idle)).count(x)
                    == executing_jobs(old(self).workers@).add(phase_jobs(Phase::Stopped)).count(
                    x,
                ));
                assert(old(self).submitted@.to_multiset().count(x) == old(
                    self,
                ).accounted().count(x));
            }
            if self.discarded@.len() > 0 {
                let i0 = choose|i: int|
                    0 <= i < old(self).workers@.len() && (#[trigger] old(
                        self,
                    ).workers@[i]).phase is Faulted;
                assert(self.workers@[i0].phase is Faulted);
            }
            assert(self.submitted@.to_multiset() =~= self.accounted());
        }
    }

    /// Take ownership of one exited worker's thread handle and join it.
    /// Handles are given up exactly once and strictly in id order: every
    /// lower-numbered worker must already have been joined.
    pub fn join_worker(&mut self, worker: usize)
        requires
            old(self).wf(),
            worker < old(self).workers@.len(),
            old(self).workers@[worker as int].handle_present,
            (old(self).workers@[worker as int].phase is Stopped) || (old(
                self,
            ).workers@[worker as int].phase is Faulted),
            forall|j: int|
                0 <= j < worker ==> !(#[trigger] old(self).workers@[j]).handle_present,
        ensures
            final(self).wf(),
            final(self).workers@ == old(self).workers@.update(
                worker as int,
                (Worker {
                    id: worker,
                    phase: old(self).workers@[worker as int].phase,
                    handle_present: false,
                }),
            ),
            final(self).sender_open == old(self).sender_open,
            final(self).queue@ == old(self).queue@,
            final(self).submitted@ == old(self).submitted@,
            final(self).completed@ == old(self).completed@,
            final(self).faulted@ == old(self).faulted@,
            final(self).discarded@ == old(self).discarded@,
    {
        let current = self.workers[worker];
        let w = Worker { id: worker, phase: current.phase, handle_present: false };
        self.workers[worker] = w;
        proof {
            lemma_executing_jobs_update(old(self).workers@, worker as int, w);
            lemma_num_faulted_update(old(self).workers@, worker as int, w);
            assert forall|x: u64|
                self.submitted@.to_multiset().count(x) == self.accounted().count(x) by {
                assert(executing_jobs(self.workers@).add(phase_jobs(current.phase)).count(x)
                    == executing_jobs(old(self).workers@).add(phase_jobs(w.phase)).count(x));
                assert(old(self).submitted@.to_multiset().count(x) == old(
                    self,
                ).accounted().count(x));
            }
            if self.discarded@.len() > 0 {
                let i0 = choose|i: int|
                    0 <= i < old(self).workers@.len() && (#[trigger] old(
                        self,
                    ).workers@[i]).phase is Faulted;
                assert(self.workers@[i0].phase is Faulted);
            }
            assert(self.submitted@.to_multiset() =~= self.accounted());
        }
    }

    /// The second step of teardown: join every worker, in id order.  All
    /// workers must already have exited (stopped or faulted) — the real pool
    /// blocks inside each join until that is true; here the wait has already
    /// been driven to its end when this is called.
    pub fn join_all(&mut self)
        requires
            old(self).wf(),
            forall|i: int|
                0 <= i < old(self).workers@.len() ==> ((#[trigger] old(
                    self,
                ).workers@[i]).phase is Stopped) || (old(self).workers@[i].phase is Faulted),
            forall|i: int|
                0 <= i < old(self).workers@.len() ==> (#[trigger] old(
                    self,
                ).workers@[i]).handle_present,
        ensures
            final(self).wf(),
            final(self).workers@.len() == old(self).workers@.len(),
            forall|i: int|
                0 <= i < old(self).workers@.len() ==> (#[trigger] final(self).workers@[i])
                    == (Worker {
                    id: i as usize,
                    phase: old(self).workers@[i].phase,
                    handle_present: false,
                }),
            final(self).sender_open == old(self).sender_open,
            final(self).queue@ == old(self).queue@,
            final(self).submitted@ == old(self).submitted@,
            final(self).completed@ == old(self).completed@,
            final(self).faulted@ == old(self).faulted@,
            final(self).discarded@ == old(self).discarded@,
    {
        let ghost orig = *self;
        let n = self.workers.len();
        let mut worker: usize = 0;
        while worker < n
            invariant
                self.wf(),
                n == self.workers@.len(),
                n == orig.workers@.len(),
                worker <= n,
                forall|j: int|
                    0 <= j < worker ==> (#[trigger] self.workers@[j]) == (Worker {
                        id: j as usize,
                        phase: orig.workers@[j].phase,
                        handle_present: false,
                    }),
                forall|j: int| worker <= j < n ==> (#[trigger] self.workers@[j]) == orig.workers@[j],
                forall|i: int|
                    0 <= i < n ==> ((#[trigger] orig.workers@[i]).phase is Stopped) || (
                    orig.workers@[i].phase is Faulted),
                forall|i: int| 0 <= i < n ==> (#[trigger] orig.workers@[i]).handle_present,
                self.sender_open == orig.sender_open,
                self.queue@ == orig.queue@,
                self.submitted@ == orig.submitted@,
                self.completed@ == orig.completed@,
                self.faulted@ == orig.faulted@,
                self.discarded@ == orig.discarded@,
            decreases n - worker,
        {
            self.join_worker(worker);
            worker = worker + 1;
        }
    }

    /// The last step of teardown, once every worker has been joined: the
    /// queue itself is dropped, and any job still in it — possible only if
    /// faults left no worker to deliver it to — is discarded, explicitly.
    pub fn discard_undelivered(&mut self)
        requires
            old(self).wf(),
            !old(self).sender_open,
            forall|i: int|
                0 <= i < old(self).workers@.len() ==> ((#[trigger] old(
                    self,
                ).workers@[i]).phase is Stopped) || (old(self).workers@[i].phase is Faulted),
        ensures
            final(self).wf(),
            final(self).queue@.len() == 0,
            final(self).discarded@ == old(self).discarded@ + old(self).queue@,
            final(self).workers@ == old(self).workers@,
            final(self).sender_open == old(self).sender_open,
            final(self).submitted@ == old(self).submitted@,
            final(self).completed@ == old(self).completed@,
            final(self).faulted@ == old(self).faulted@,
    {
        let ghost orig = *self;
        while self.queue.len() > 0
            invariant
                self.wf(),
                !self.sender_open,
                self.workers@ == orig.workers@,
                self.submitted@ == orig.submitted@,
                self.completed@ == orig.completed@,
                self.faulted@ == orig.faulted@,
                self.discarded@ + self.queue@ == orig.discarded@ + orig.queue@,
                forall|i: int|
                    0 <= i < orig.workers@.len() ==> ((#[trigger] orig.workers@[i]).phase
                        is Stopped) || (orig.workers@[i].phase is Faulted),
            decreases self.queue@.len(),
        {
            let ghost before = *self;
            let job = self.queue.remove(0);
            self.discarded.push(job);
            proof {
                broadcast use vstd::seq_lib::group_to_multiset_ensures;

                assert(before.queue@.contains(job));
                assert(before.queue@[0] == job);
                assert forall|i: int|
                    0 <= i < self.workers@.len() && (#[trigger] self.workers@[i]).phase
                        is Stopped implies (!self.sender_open && self.queue@.len() == 0) by {
                    assert(before.workers@[i].phase is Stopped ==> before.queue@.len() == 0);
                }
                assert(self.workers@[0].phase is Faulted);
                assert forall|x: u64|
                    self.submitted@.to_multiset().count(x) == self.accounted().count(x) by {
                    assert(before.submitted@.to_multiset().count(x) == before.accounted().count(
                        x,
                    ));
                }
                assert(self.submitted@.to_multiset() =~= self.accounted());
                assert(self.discarded@ + self.queue@ =~= orig.discarded@ + orig.queue@);
            }
        }
        proof {
            assert(self.discarded@ =~= orig.discarded@ + orig.queue@);
        }
    }

    /// Whether the pool is still accepting jobs: true until `close`.
    pub fn is_open(&self) -> (b: bool)
        ensures
            b == self.sender_open,
    {
        self.sender_open
    }

    /// The pool's size as constructed: its number of workers, faulted or not.
    pub fn worker_count(&self) -> (n: usize)
        ensures
            n == self.workers@.len(),
    {
        self.workers.len()
    }
}

} // verus!
