//! Workers and the bookkeeping of the jobs they are running.

use vstd::multiset::Multiset;
use vstd::prelude::*;

verus! {

/// What a single worker is doing.
///
/// A worker starts `Idle`, alternates between `Idle` and `Executing` while
/// the pool is live, and ends in exactly one of two terminal states:
/// `Stopped` when it saw the queue closed and drained, or `Faulted` when a
/// job brought the worker down.  No transition leaves a terminal state.
#[derive(Clone, Copy, PartialEq, Eq, Debug, Structural)]
pub enum Phase {
    /// Waiting for the next job.
    Idle,
    /// Running the job with this label; the worker is unavailable until done.
    Executing { job: u64 },
    /// Exited its loop after the queue was closed and drained.
    Stopped,
    /// Went down while running a job; its capacity is permanently lost.
    Faulted,
}

/// One worker: a stable numeric id, its current phase, and whether its
/// thread handle is still held by the pool (it is given up exactly once,
/// when the worker is joined during teardown).
#[derive(Clone, Copy, PartialEq, Eq, Debug, Structural)]
pub struct Worker {
    pub id: usize,
    pub phase: Phase,
    pub handle_present: bool,
}

/// The jobs a single phase contributes to the in-flight accounting:
/// one job while executing, none otherwise.
pub open spec fn phase_jobs(p: Phase) -> Multiset<u64> {
    match p {
        Phase::Executing { job } => Multiset::empty().insert(job),
        _ => Multiset::empty(),
    }
}

/// All jobs currently being executed by some worker in the sequence,
/// counted with multiplicity.
pub open spec fn executing_jobs(ws: Seq<Worker>) -> Multiset<u64>
    decreases ws.len(),
{
    if ws.len() == 0 {
        Multiset::empty()
    } else {
        executing_jobs(ws.drop_last()).add(phase_jobs(ws.last().phase))
    }
}

/// How many workers in the sequence have faulted.
pub open spec fn num_faulted(ws: Seq<Worker>) -> nat
    decreases ws.len(),
{
    if ws.len() == 0 {
        0
    } else {
        num_faulted(ws.drop_last()) + (if ws.last().phase is Faulted {
            1nat
        } else {
            0nat
        })
    }
}

pub proof fn lemma_executing_jobs_push(ws: Seq<Worker>, w: Worker)
    ensures
        executing_jobs(ws.push(w)) == executing_jobs(ws).add(phase_jobs(w.phase)),
{
    assert(ws.push(w).drop_last() =~= ws);
    assert(ws.push(w).last() == w);
}

pub proof fn lemma_num_faulted_push(ws: Seq<Worker>, w: Worker)
    ensures
        num_faulted(ws.push(w)) == num_faulted(ws) + (if w.phase is Faulted {
            1nat
        } else {
            0nat
        }),
{
    assert(ws.push(w).drop_last() =~= ws);
    assert(ws.push(w).last() == w);
}

/// Replacing one worker exchanges exactly that worker's contribution to the
/// set of executing jobs; nothing held by the other workers moves.
pub proof fn lemma_executing_jobs_update(ws: Seq<Worker>, i: int, w: Worker)
    requires
        0 <= i < ws.len(),
    ensures
        executing_jobs(ws.update(i, w)).add(phase_jobs(ws[i].phase)) == executing_jobs(ws).add(
            phase_jobs(w.phase),
        ),
    decreases ws.len(),
{
    let n = ws.len() as int;
    if i == n - 1 {
        assert(ws.update(i, w).drop_last() =~= ws.drop_last());
        assert(ws.update(i, w).last() == w);
        assert(executing_jobs(ws.update(i, w)).add(phase_jobs(ws[i].phase)) =~= executing_jobs(
            ws,
        ).add(phase_jobs(w.phase)));
    } else {
        let dl = ws.drop_last();
        lemma_executing_jobs_update(dl, i, w);
        assert(ws.update(i, w).drop_last() =~= dl.update(i, w));
        assert(ws.update(i, w).last() == ws.last());
        assert(dl[i] == ws[i]);
        assert(executing_jobs(ws.update(i, w)) == executing_jobs(dl.update(i, w)).add(
            phase_jobs(ws.last().phase),
        ));
        assert(executing_jobs(ws) == executing_jobs(dl).add(phase_jobs(ws.last().phase)));
        assert forall|x: u64|
            executing_jobs(ws.update(i, w)).add(phase_jobs(ws[i].phase)).count(x)
                == executing_jobs(ws).add(phase_jobs(w.phase)).count(x) by {
            assert(executing_jobs(dl.update(i, w)).add(phase_jobs(dl[i].phase)).count(x)
                == executing_jobs(dl).add(phase_jobs(w.phase)).count(x));
        }
        assert(executing_jobs(ws.update(i, w)).add(phase_jobs(ws[i].phase)) =~= executing_jobs(
            ws,
        ).add(phase_jobs(w.phase)));
    }
}

pub proof fn lemma_num_faulted_update(ws: Seq<Worker>, i: int, w: Worker)
    requires
        0 <= i < ws.len(),
    ensures
        num_faulted(ws.update(i, w)) + (if ws[i].phase is Faulted {
            1nat
        } else {
            0nat
        }) == num_faulted(ws) + (if w.phase is Faulted {
            1nat
        } else {
            0nat
        }),
    decreases ws.len(),
{
    let n = ws.len() as int;
    if i == n - 1 {
        assert(ws.update(i, w).drop_last() =~= ws.drop_last());
        assert(ws.update(i, w).last() == w);
    } else {
        lemma_num_faulted_update(ws.drop_last(), i, w);
        assert(ws.update(i, w).drop_last() =~= ws.drop_last().update(i, w));
        assert(ws.update(i, w).last() == ws.last());
        assert(ws.drop_last()[i] == ws[i]);
    }
}

/// If no worker is executing, the in-flight accounting is empty.
pub proof fn lemma_executing_jobs_none(ws: Seq<Worker>)
    requires
        forall|i: int| 0 <= i < ws.len() ==> !((#[trigger] ws[i]).phase is Executing),
    ensures
        executing_jobs(ws) == Multiset::<u64>::empty(),
    decreases ws.len(),
{
    if ws.len() > 0 {
        lemma_executing_jobs_none(ws.drop_last());
        assert(ws.last() == ws[ws.len() - 1]);
        assert(executing_jobs(ws) =~= Multiset::<u64>::empty());
    }
}

/// If no worker has faulted, the fault count is zero.
pub proof fn lemma_num_faulted_none(ws: Seq<Worker>)
    requires
        forall|i: int| 0 <= i < ws.len() ==> !((#[trigger] ws[i]).phase is Faulted),
    ensures
        num_faulted(ws) == 0,
    decreases ws.len(),
{
    if ws.len() > 0 {
        lemma_num_faulted_none(ws.drop_last());
        assert(ws.last() == ws[ws.len() - 1]);
    }
}

} // verus!
