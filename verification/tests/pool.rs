use workbench::pool::{
    Dispatch, Job, JobOutcome, PoolError, ThreadExit, ThreadPool, Worker, WorkerState,
};

fn job(id: u64) -> Job {
    Job { id }
}

/// Lets every worker in turn ask for work and finish what it gets, until all
/// of them have left. Returns the ids of the jobs in the order they ran.
fn run_to_exit(pool: &mut ThreadPool) -> Vec<u64> {
    let mut ran = Vec::new();
    let mut left = 0;
    while left < pool.size() {
        left = 0;
        for w in 0..pool.size() {
            match pool.receive(w) {
                Ok(Dispatch::Run(j)) => {
                    ran.push(j.id);
                    assert_eq!(pool.complete(w, JobOutcome::Completed), Ok(j));
                }
                Ok(Dispatch::Exit) | Err(PoolError::WorkerTerminated) => left += 1,
                other => panic!("worker {} was told {:?}", w, other),
            }
        }
    }
    ran
}

#[test]
fn new_pool_has_the_workers_asked_for_all_waiting() {
    for size in 1..6 {
        let mut pool = ThreadPool::new(size);
        assert_eq!(pool.size(), size);
        assert!(pool.is_open());
        assert_eq!(pool.pending(), 0);
        assert_eq!(pool.in_flight(), 0);
        assert_eq!(pool.joined(), 0);
        for w in 0..size {
            let worker = pool.worker(w).unwrap();
            assert_eq!(worker.id(), w);
            assert_eq!(worker.state(), WorkerState::Running);
            assert_eq!(worker.current(), None);
            assert!(!worker.faulted());
        }
        assert!(pool.worker(size).is_none());
        for w in 0..size {
            assert_eq!(pool.receive(w), Ok(Dispatch::Wait));
        }
        assert_eq!(pool.in_flight(), 0);
    }
}

#[test]
fn worker_starts_running_and_idle() {
    let worker = Worker::new(3);
    assert_eq!(worker.id(), 3);
    assert_eq!(worker.state(), WorkerState::Running);
    assert_eq!(worker.current(), None);
    assert!(!worker.faulted());
}

#[test]
fn pool_of_no_workers_is_refused() {
    assert!(matches!(ThreadPool::build(0), Err(PoolError::ZeroSize)));
    let pool = ThreadPool::build(3).ok().unwrap();
    assert_eq!(pool.size(), 3);
}

#[test]
fn every_job_runs_exactly_once() {
    for size in 1..5 {
        let mut pool = ThreadPool::new(size);
        for id in 0..17 {
            assert_eq!(pool.execute(job(id)), Ok(()));
        }
        assert_eq!(pool.pending(), 17);
        assert_eq!(pool.close(), Ok(()));
        let mut ran = run_to_exit(&mut pool);
        assert_eq!(ran.len(), 17);
        ran.sort();
        assert_eq!(ran, (0..17).collect::<Vec<u64>>());
        assert_eq!(pool.pending(), 0);
    }
}

#[test]
fn jobs_in_flight_never_exceed_the_workers() {
    let mut pool = ThreadPool::new(2);
    for id in 0..5 {
        pool.execute(job(id)).unwrap();
    }
    assert_eq!(pool.receive(0), Ok(Dispatch::Run(job(0))));
    assert_eq!(pool.in_flight(), 1);
    assert_eq!(pool.receive(1), Ok(Dispatch::Run(job(1))));
    assert_eq!(pool.in_flight(), 2);
    // Both workers are busy: a third job stays in the queue.
    assert_eq!(pool.receive(0), Err(PoolError::WorkerBusy));
    assert_eq!(pool.receive(1), Err(PoolError::WorkerBusy));
    assert_eq!(pool.in_flight(), 2);
    assert_eq!(pool.pending(), 3);
    assert_eq!(pool.worker(0).unwrap().current(), Some(job(0)));
    assert_eq!(pool.worker(1).unwrap().current(), Some(job(1)));
    assert_eq!(pool.complete(0, JobOutcome::Completed), Ok(job(0)));
    assert_eq!(pool.in_flight(), 1);
    assert_eq!(pool.receive(0), Ok(Dispatch::Run(job(2))));
    assert_eq!(pool.in_flight(), 2);
}

#[test]
fn single_worker_runs_jobs_in_submission_order() {
    let mut pool = ThreadPool::new(1);
    pool.execute(job(10)).unwrap();
    pool.execute(job(20)).unwrap();
    assert_eq!(pool.receive(0), Ok(Dispatch::Run(job(10))));
    // The second job cannot start before the first has ended.
    assert_eq!(pool.receive(0), Err(PoolError::WorkerBusy));
    assert_eq!(pool.pending(), 1);
    assert_eq!(pool.complete(0, JobOutcome::Completed), Ok(job(10)));
    assert_eq!(pool.receive(0), Ok(Dispatch::Run(job(20))));
    assert_eq!(pool.complete(0, JobOutcome::Completed), Ok(job(20)));
    assert_eq!(pool.receive(0), Ok(Dispatch::Wait));
}

#[test]
fn shutdown_joins_every_worker_in_order() {
    let mut pool = ThreadPool::new(3);
    pool.execute(job(1)).unwrap();
    assert_eq!(pool.next_join(), None);
    assert_eq!(pool.join(0, ThreadExit::Clean), Err(PoolError::QueueOpen));
    assert_eq!(pool.close(), Ok(()));
    assert!(!pool.is_open());
    assert!(!pool.is_shut_down());
    assert_eq!(pool.next_join(), Some(0));
    // A worker that is still in its loop cannot have been joined.
    assert_eq!(pool.join(0, ThreadExit::Clean), Err(PoolError::WorkerRunning));
    assert_eq!(pool.joined(), 0);
    assert_eq!(run_to_exit(&mut pool), vec![1]);
    assert_eq!(pool.join(1, ThreadExit::Clean), Err(PoolError::OutOfOrder));
    assert_eq!(pool.join(3, ThreadExit::Clean), Err(PoolError::UnknownWorker));
    for w in 0..3 {
        assert_eq!(pool.next_join(), Some(w));
        assert_eq!(pool.join(w, ThreadExit::Clean), Ok(()));
        assert_eq!(pool.joined(), w + 1);
    }
    assert_eq!(pool.join(0, ThreadExit::Clean), Err(PoolError::AlreadyJoined));
    assert_eq!(pool.next_join(), None);
    assert!(pool.is_shut_down());
    for w in 0..3 {
        assert_eq!(pool.worker(w).unwrap().state(), WorkerState::Terminated);
        assert_eq!(pool.receive(w), Err(PoolError::WorkerTerminated));
    }
    assert_eq!(pool.in_flight(), 0);
}

#[test]
fn pool_is_closed_only_once() {
    let mut pool = ThreadPool::new(1);
    assert_eq!(pool.close(), Ok(()));
    assert_eq!(pool.close(), Err(PoolError::QueueClosed));
    assert!(!pool.is_open());
}

#[test]
fn slow_job_does_not_delay_the_next_worker() {
    let mut pool = ThreadPool::new(2);
    let slow = job(1);
    let fast = job(2);
    pool.execute(slow).unwrap();
    pool.execute(fast).unwrap();
    assert_eq!(pool.receive(0), Ok(Dispatch::Run(slow)));
    // Worker 0 is still busy with the slow job; worker 1 gets the fast one
    // at once and finishes it first.
    assert_eq!(pool.receive(1), Ok(Dispatch::Run(fast)));
    assert_eq!(pool.complete(1, JobOutcome::Completed), Ok(fast));
    assert_eq!(pool.worker(0).unwrap().current(), Some(slow));
    assert_eq!(pool.receive(1), Ok(Dispatch::Wait));
    assert_eq!(pool.complete(0, JobOutcome::Completed), Ok(slow));
}

#[test]
fn submitting_after_shutdown_is_an_error() {
    let mut pool = ThreadPool::new(2);
    pool.execute(job(1)).unwrap();
    pool.close().unwrap();
    assert_eq!(pool.execute(job(2)), Err(PoolError::QueueClosed));
    assert_eq!(pool.pending(), 1);
    assert_eq!(run_to_exit(&mut pool), vec![1]);
    assert_eq!(pool.execute(job(3)), Err(PoolError::QueueClosed));
    assert_eq!(pool.pending(), 0);
}

#[test]
fn four_workers_run_twenty_jobs_and_join() {
    let mut pool = ThreadPool::new(4);
    let mut counter = 0;
    for id in 0..20 {
        pool.execute(job(id)).unwrap();
    }
    pool.close().unwrap();
    let mut left = 0;
    while left < 4 {
        left = 0;
        for w in 0..4 {
            match pool.receive(w) {
                Ok(Dispatch::Run(_)) => {
                    counter += 1;
                    pool.complete(w, JobOutcome::Completed).unwrap();
                }
                _ => left += 1,
            }
        }
    }
    let mut joins = 0;
    while let Some(w) = pool.next_join() {
        assert_eq!(pool.join(w, ThreadExit::Clean), Ok(()));
        joins += 1;
    }
    assert_eq!(counter, 20);
    assert_eq!(joins, 4);
    assert_eq!(pool.joined(), 4);
    assert!(pool.is_shut_down());
}

#[test]
fn queued_jobs_are_drained_after_close() {
    let mut pool = ThreadPool::new(1);
    pool.execute(job(1)).unwrap();
    pool.execute(job(2)).unwrap();
    pool.close().unwrap();
    assert_eq!(pool.receive(0), Ok(Dispatch::Run(job(1))));
    pool.complete(0, JobOutcome::Completed).unwrap();
    assert_eq!(pool.receive(0), Ok(Dispatch::Run(job(2))));
    pool.complete(0, JobOutcome::Completed).unwrap();
    assert_eq!(pool.receive(0), Ok(Dispatch::Exit));
    assert_eq!(pool.worker(0).unwrap().state(), WorkerState::Terminated);
}

#[test]
fn job_in_flight_at_shutdown_runs_to_its_end() {
    let mut pool = ThreadPool::new(1);
    pool.execute(job(1)).unwrap();
    assert_eq!(pool.receive(0), Ok(Dispatch::Run(job(1))));
    pool.close().unwrap();
    assert_eq!(pool.join(0, ThreadExit::Clean), Err(PoolError::WorkerRunning));
    assert_eq!(pool.complete(0, JobOutcome::Completed), Ok(job(1)));
    assert_eq!(pool.receive(0), Ok(Dispatch::Exit));
    assert_eq!(pool.join(0, ThreadExit::Clean), Ok(()));
}

#[test]
fn faulted_job_leaves_its_worker_running() {
    let mut pool = ThreadPool::new(1);
    pool.execute(job(1)).unwrap();
    pool.execute(job(2)).unwrap();
    assert_eq!(pool.receive(0), Ok(Dispatch::Run(job(1))));
    assert_eq!(pool.complete(0, JobOutcome::Faulted), Ok(job(1)));
    assert_eq!(pool.worker(0).unwrap().state(), WorkerState::Running);
    assert!(!pool.worker(0).unwrap().faulted());
    assert_eq!(pool.receive(0), Ok(Dispatch::Run(job(2))));
}

#[test]
fn dead_thread_is_reported_at_join() {
    let mut pool = ThreadPool::new(2);
    pool.execute(job(1)).unwrap();
    assert_eq!(pool.receive(0), Ok(Dispatch::Run(job(1))));
    pool.close().unwrap();
    assert_eq!(pool.join(0, ThreadExit::Panicked), Err(PoolError::WorkerFault));
    let worker = pool.worker(0).unwrap();
    assert_eq!(worker.state(), WorkerState::Terminated);
    assert!(worker.faulted());
    assert_eq!(worker.current(), None);
    assert_eq!(pool.joined(), 1);
    assert_eq!(pool.in_flight(), 0);
    // The fault is not retried, and the other worker is joined as usual.
    assert_eq!(pool.receive(1), Ok(Dispatch::Exit));
    assert_eq!(pool.join(1, ThreadExit::Clean), Ok(()));
    assert!(pool.is_shut_down());
}

#[test]
fn worker_requests_are_checked() {
    let mut pool = ThreadPool::new(2);
    assert_eq!(pool.receive(2), Err(PoolError::UnknownWorker));
    assert_eq!(pool.complete(2, JobOutcome::Completed), Err(PoolError::UnknownWorker));
    assert_eq!(pool.complete(0, JobOutcome::Completed), Err(PoolError::WorkerIdle));
    assert_eq!(pool.join(2, ThreadExit::Clean), Err(PoolError::UnknownWorker));
}
