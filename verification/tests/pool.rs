use web_server::pool::{ClaimOutcome, HandleState, JobStatus, ThreadPool, Worker, WorkerPhase};

fn claimed_job(r: ClaimOutcome) -> usize {
    match r {
        ClaimOutcome::Claimed { job } => job,
        other => panic!("expected a claimed job, got {:?}", other),
    }
}

fn running_workers(p: &ThreadPool) -> usize {
    p.workers
        .iter()
        .filter(|w| matches!(w.phase, WorkerPhase::Running { .. }))
        .count()
}

#[test]
fn build_size_one_spawns_one_worker() {
    let p = ThreadPool::build(1).unwrap();
    assert_eq!(p.workers.len(), 1);
    assert!(p.sender_open);
    assert_eq!(p.queue.len(), 0);
    assert_eq!(p.jobs.len(), 0);
}

#[test]
fn build_spawns_exactly_n_fresh_workers() {
    let p = ThreadPool::build(4).unwrap();
    assert_eq!(p.workers.len(), 4);
    for (i, w) in p.workers.iter().enumerate() {
        assert_eq!(w.id, i);
        assert_eq!(w.handle, HandleState::Held);
        assert_eq!(w.phase, WorkerPhase::Idle);
    }
}

#[test]
fn build_size_zero_fails_with_no_side_effects() {
    let r = ThreadPool::build(0);
    match r {
        Err(e) => assert_eq!(e, web_server::pool::PoolError::ZeroSize),
        Ok(_) => panic!("a zero-size pool must be refused"),
    }
}

#[test]
fn worker_new_starts_idle_with_handle() {
    let w = Worker::new(3);
    assert_eq!(w.id, 3);
    assert_eq!(w.handle, HandleState::Held);
    assert_eq!(w.phase, WorkerPhase::Idle);
}

#[test]
fn execute_assigns_ordinals_and_queues_fifo() {
    let mut p = ThreadPool::build(2).unwrap();
    assert_eq!(p.execute(), 0);
    assert_eq!(p.execute(), 1);
    assert_eq!(p.execute(), 2);
    assert_eq!(p.queue, vec![0, 1, 2]);
    assert!(p.jobs.iter().all(|j| *j == JobStatus::Queued));
}

#[test]
fn claims_are_fifo_and_run_each_job_once() {
    let mut p = ThreadPool::build(1).unwrap();
    p.execute();
    p.execute();
    let j0 = claimed_job(p.claim(0));
    assert_eq!(j0, 0);
    assert_eq!(p.jobs[0], JobStatus::Running { worker: 0 });
    assert!(!p.queue.contains(&0));
    assert_eq!(p.finish(0), 0);
    assert_eq!(p.jobs[0], JobStatus::Done);
    let j1 = claimed_job(p.claim(0));
    assert_eq!(j1, 1);
    assert_eq!(p.finish(0), 1);
    assert_eq!(p.jobs[1], JobStatus::Done);
}

#[test]
fn single_worker_serializes_jobs() {
    // A pool of size 1 runs jobs strictly one after the other: while the
    // worker runs the first job, the second stays queued, untouched.
    let mut p = ThreadPool::build(1).unwrap();
    p.execute();
    p.execute();
    assert_eq!(claimed_job(p.claim(0)), 0);
    assert_eq!(running_workers(&p), 1);
    assert_eq!(p.jobs[1], JobStatus::Queued);
    p.finish(0);
    assert_eq!(claimed_job(p.claim(0)), 1);
    assert_eq!(p.jobs[0], JobStatus::Done);
}

#[test]
fn empty_open_queue_leaves_worker_waiting() {
    let mut p = ThreadPool::build(1).unwrap();
    assert_eq!(p.claim(0), ClaimOutcome::WouldBlock);
    assert_eq!(p.workers[0].phase, WorkerPhase::Idle);
}

#[test]
fn pool_of_two_runs_four_jobs_at_most_two_at_a_time() {
    let mut p = ThreadPool::build(2).unwrap();
    for _ in 0..4 {
        p.execute();
    }
    let mut done: usize = 0;
    while p.queue.len() > 0 {
        // Both workers claim, then both finish: two jobs mid-execution at the
        // peak, never more.
        let a = claimed_job(p.claim(0));
        assert!(running_workers(&p) <= 2);
        let b = claimed_job(p.claim(1));
        assert_eq!(running_workers(&p), 2);
        assert_ne!(a, b);
        p.finish(0);
        p.finish(1);
        done += 2;
    }
    assert_eq!(done, 4);
    assert!(p.jobs.iter().all(|j| *j == JobStatus::Done));
    p.shutdown();
    assert_eq!(p.jobs.iter().filter(|j| **j == JobStatus::Done).count(), 4);
}

#[test]
fn work_until_empty_executes_every_job_exactly_once() {
    let mut p = ThreadPool::build(2).unwrap();
    for _ in 0..5 {
        p.execute();
    }
    p.work_until_empty(1);
    assert_eq!(p.queue.len(), 0);
    assert_eq!(p.jobs.len(), 5);
    assert!(p.jobs.iter().all(|j| *j == JobStatus::Done));
}

#[test]
fn shutdown_with_no_jobs_terminates_promptly() {
    let mut p = ThreadPool::build(3).unwrap();
    p.shutdown();
    assert!(!p.sender_open);
    for w in &p.workers {
        assert_eq!(w.phase, WorkerPhase::Stopped);
        assert_eq!(w.handle, HandleState::Taken);
    }
}

#[test]
fn shutdown_finishes_in_flight_and_drops_unclaimed() {
    let mut p = ThreadPool::build(2).unwrap();
    p.execute();
    p.execute();
    let j = claimed_job(p.claim(0));
    assert_eq!(j, 0);
    p.shutdown();
    assert_eq!(p.jobs[0], JobStatus::Done);
    assert_eq!(p.jobs[1], JobStatus::Dropped);
    assert_eq!(p.queue.len(), 0);
}

#[test]
fn shutdown_twice_changes_nothing() {
    let mut p = ThreadPool::build(2).unwrap();
    p.execute();
    p.execute();
    claimed_job(p.claim(1));
    p.shutdown();
    let workers_once = p.workers.clone();
    let jobs_once = p.jobs.clone();
    let queue_once = p.queue.clone();
    let open_once = p.sender_open;
    p.shutdown();
    assert_eq!(p.workers, workers_once);
    assert_eq!(p.jobs, jobs_once);
    assert_eq!(p.queue, queue_once);
    assert_eq!(p.sender_open, open_once);
}

#[test]
fn closed_pool_stops_claiming_workers() {
    let mut p = ThreadPool::build(2).unwrap();
    p.execute();
    p.close();
    assert_eq!(p.claim(0), ClaimOutcome::Closed);
    assert_eq!(p.workers[0].phase, WorkerPhase::Stopped);
    // The unclaimed job is still pending: closure drops it only at shutdown.
    assert_eq!(p.jobs[0], JobStatus::Queued);
}

#[test]
fn drain_stops_every_worker_and_finishes_in_flight() {
    let mut p = ThreadPool::build(2).unwrap();
    p.execute();
    claimed_job(p.claim(1));
    p.close();
    p.drain();
    for w in &p.workers {
        assert_eq!(w.phase, WorkerPhase::Stopped);
        assert_eq!(w.handle, HandleState::Held);
    }
    assert_eq!(p.jobs[0], JobStatus::Done);
}

#[test]
fn join_consumes_the_handle_exactly_once() {
    let mut p = ThreadPool::build(1).unwrap();
    p.close();
    p.drain();
    assert!(p.join_worker(0));
    assert!(!p.join_worker(0));
    assert_eq!(p.workers[0].handle, HandleState::Taken);
}
