use rsblog::ThreadPool;
use rsblog::worker::Phase;

#[test]
fn creates_thread_pool_with_given_size() {
    let pool = ThreadPool::new(4);
    assert_eq!(pool.workers.len(), 4);
}

#[test]
fn workers_get_ids_in_order_and_start_idle() {
    let pool = ThreadPool::new(3);
    for (i, w) in pool.workers.iter().enumerate() {
        assert_eq!(w.id, i);
        assert!(matches!(w.phase, Phase::Idle));
        assert!(w.handle_present);
    }
    assert!(pool.is_open());
    assert_eq!(pool.worker_count(), 3);
}

#[test]
fn single_job_runs_exactly_once() {
    let mut pool = ThreadPool::new(1);
    pool.execute(42);
    let job = pool.take_job(0);
    assert_eq!(job, 42);
    assert!(matches!(pool.workers[0].phase, Phase::Executing { job: 42 }));
    pool.finish_job(0);
    assert_eq!(pool.completed, vec![42]);
    assert_eq!(pool.queue.len(), 0);
}

#[test]
fn jobs_are_delivered_in_fifo_order() {
    let mut pool = ThreadPool::new(1);
    pool.execute(1);
    pool.execute(2);
    pool.execute(3);
    for expected in 1..=3u64 {
        let job = pool.take_job(0);
        assert_eq!(job, expected);
        pool.finish_job(0);
    }
    assert_eq!(pool.completed, vec![1, 2, 3]);
}

#[test]
fn more_jobs_than_workers_all_complete_once() {
    let mut pool = ThreadPool::new(4);
    for job in 0..8u64 {
        pool.execute(job);
    }
    // Two rounds: each worker takes one job, runs it, comes back for more.
    for _round in 0..2 {
        for worker in 0..4 {
            let _ = pool.take_job(worker);
        }
        // Every worker holds a different job at the same time: the pool
        // runs jobs in parallel, it does not serialize them.
        for worker in 0..4 {
            assert!(matches!(pool.workers[worker].phase, Phase::Executing { .. }));
        }
        for worker in 0..4 {
            pool.finish_job(worker);
        }
    }
    let mut completed = pool.completed.clone();
    completed.sort();
    assert_eq!(completed, (0..8u64).collect::<Vec<u64>>());
    assert_eq!(pool.queue.len(), 0);
}

#[test]
fn teardown_waits_for_all_submitted_jobs() {
    let mut pool = ThreadPool::new(2);
    for job in 1..=5u64 {
        pool.execute(job);
    }
    pool.close();
    // The queue stays deliverable after close: workers drain it before they
    // observe closure, so teardown never returns with work unfinished.
    let mut worker = 0;
    while !pool.queue.is_empty() {
        let _ = pool.take_job(worker);
        pool.finish_job(worker);
        worker = (worker + 1) % 2;
    }
    pool.observe_closed(0);
    pool.observe_closed(1);
    pool.join_all();
    pool.discard_undelivered();
    assert_eq!(pool.completed.len(), 5);
    let mut completed = pool.completed.clone();
    completed.sort();
    assert_eq!(completed, vec![1, 2, 3, 4, 5]);
    assert_eq!(pool.discarded.len(), 0);
    for w in &pool.workers {
        assert!(matches!(w.phase, Phase::Stopped));
        assert!(!w.handle_present);
    }
}

#[test]
fn closed_pool_stops_accepting_jobs() {
    let mut pool = ThreadPool::new(2);
    pool.execute(9);
    assert!(pool.is_open());
    pool.close();
    // `execute` demands an open pool; the host must check and fail loudly
    // rather than submit, so the observable contract here is the flag.
    assert!(!pool.is_open());
}

#[test]
fn faulted_worker_only_costs_its_own_capacity() {
    let mut pool = ThreadPool::new(2);
    pool.execute(7);
    pool.execute(8);
    pool.execute(9);
    let doomed = pool.take_job(0);
    assert_eq!(doomed, 7);
    pool.fault_job(0);
    assert_eq!(pool.faulted, vec![7]);
    assert!(matches!(pool.workers[0].phase, Phase::Faulted));
    // The sibling worker and the queue are untouched: the remaining jobs
    // still complete on worker 1.
    assert!(matches!(pool.workers[1].phase, Phase::Idle));
    assert_eq!(pool.queue, vec![8, 9]);
    for expected in 8..=9u64 {
        let job = pool.take_job(1);
        assert_eq!(job, expected);
        pool.finish_job(1);
    }
    pool.close();
    pool.observe_closed(1);
    pool.join_all();
    pool.discard_undelivered();
    assert_eq!(pool.completed, vec![8, 9]);
    assert_eq!(pool.discarded.len(), 0);
}

#[test]
fn jobs_without_a_worker_left_are_discarded_at_teardown() {
    let mut pool = ThreadPool::new(1);
    pool.execute(1);
    pool.execute(2);
    pool.execute(3);
    let _ = pool.take_job(0);
    pool.fault_job(0);
    pool.close();
    pool.join_all();
    pool.discard_undelivered();
    assert_eq!(pool.completed.len(), 0);
    assert_eq!(pool.faulted, vec![1]);
    assert_eq!(pool.discarded, vec![2, 3]);
    assert_eq!(pool.queue.len(), 0);
}
