use std::sync::atomic::{AtomicUsize, Ordering};
use std::sync::{Arc, Mutex};
use std::time::{Duration, Instant};

use workpool::model::ShutdownStep;
use workpool::threadpool::ThreadPool;
use workpool::worker::{JobOutcome, Step, WorkerState};

type Job = Box<dyn FnOnce() + Send + 'static>;

/// Steps every worker in turn until none of them has a job to run, running
/// each job that is handed out. Returns the number of jobs that were run.
fn drain(pool: &mut ThreadPool<Job>) -> usize {
    let mut ran = 0;
    loop {
        let mut progress = false;
        for id in 0..pool.size() {
            if let Step::Run(job) = pool.poll(id) {
                job();
                pool.finish(id, JobOutcome::Completed);
                ran += 1;
                progress = true;
            }
        }
        if !progress {
            return ran;
        }
    }
}

/// Runs a shutdown to its end. A worker that is waited for may itself wait
/// for the dequeue lock, so every worker is stepped in turn, as their threads
/// would after being woken.
fn shut_down(pool: &mut ThreadPool<Job>) -> usize {
    let mut ran = 0;
    let mut rounds = 0;
    while pool.shutdown() != ShutdownStep::Done {
        rounds += 1;
        assert!(rounds <= 1000, "the shutdown makes no progress");
        for id in 0..pool.size() {
            if let Step::Run(job) = pool.poll(id) {
                job();
                pool.finish(id, JobOutcome::Completed);
                ran += 1;
            }
        }
    }
    ran
}

#[test]
fn new_pool_has_idle_workers_and_open_queue() {
    let pool: ThreadPool<u32> = ThreadPool::new(3);
    assert_eq!(pool.size(), 3);
    assert!(pool.is_open());
    assert_eq!(pool.pending(), 0);
    assert_eq!(pool.lock_holder(), None);
    assert!(!pool.is_stopped());
    for id in 0..3 {
        let w = pool.worker(id);
        assert_eq!(w.id, id);
        assert_eq!(w.state, WorkerState::Idle);
        assert!(!w.joined);
    }
}

#[test]
fn hundred_jobs_on_four_workers_all_run() {
    let counter = Arc::new(AtomicUsize::new(0));
    let mut pool: ThreadPool<Job> = ThreadPool::new(4);
    for _ in 0..100 {
        let c = Arc::clone(&counter);
        pool.execute(Box::new(move || {
            c.fetch_add(1, Ordering::SeqCst);
        }));
    }
    assert_eq!(pool.pending(), 100);
    let ran = shut_down(&mut pool);
    assert_eq!(ran, 100);
    assert_eq!(counter.load(Ordering::SeqCst), 100);
    assert!(pool.is_stopped());
    assert_eq!(pool.pending(), 0);
}

#[test]
fn every_submitted_job_runs_once_for_several_sizes_and_counts() {
    for size in 1..6usize {
        for jobs in [0usize, 1, 2, 5, 17] {
            let counter = Arc::new(AtomicUsize::new(0));
            let mut pool: ThreadPool<Job> = ThreadPool::new(size);
            for _ in 0..jobs {
                let c = Arc::clone(&counter);
                pool.execute(Box::new(move || {
                    c.fetch_add(1, Ordering::SeqCst);
                }));
            }
            let before = drain(&mut pool);
            let after = shut_down(&mut pool);
            assert_eq!(before + after, jobs);
            assert_eq!(counter.load(Ordering::SeqCst), jobs);
            assert!(pool.is_stopped());
        }
    }
}

#[test]
fn jobs_are_handed_out_in_submission_order() {
    let mut pool: ThreadPool<u32> = ThreadPool::new(2);
    pool.execute(10);
    pool.execute(20);
    pool.execute(30);
    assert_eq!(pool.poll(1), Step::Run(10));
    assert_eq!(pool.poll(0), Step::Run(20));
    assert_eq!(pool.poll(1), Step::Wait);
    pool.finish(1, JobOutcome::Completed);
    assert_eq!(pool.poll(1), Step::Run(30));
    assert_eq!(pool.pending(), 0);
}

#[test]
fn single_worker_runs_second_job_after_first_ended() {
    let mut pool: ThreadPool<&'static str> = ThreadPool::new(1);
    pool.execute("slow");
    pool.execute("quick");
    assert_eq!(pool.poll(0), Step::Run("slow"));
    // the only worker is busy: the second job is not handed out
    assert_eq!(pool.poll(0), Step::Wait);
    assert_eq!(pool.pending(), 1);
    assert_eq!(pool.worker(0).state, WorkerState::Running);
    pool.finish(0, JobOutcome::Completed);
    assert_eq!(pool.poll(0), Step::Run("quick"));
    pool.finish(0, JobOutcome::Completed);
    assert_eq!(pool.shutdown(), ShutdownStep::WaitFor(0));
    assert_eq!(pool.poll(0), Step::Exit);
    assert_eq!(pool.shutdown(), ShutdownStep::Done);
}

#[test]
fn single_worker_slow_job_then_second_job_timing() {
    let began = Instant::now();
    let first_started = Arc::new(Mutex::new(None));
    let second_ended = Arc::new(Mutex::new(None));
    let mut pool: ThreadPool<Job> = ThreadPool::new(1);
    let slot = Arc::clone(&first_started);
    pool.execute(Box::new(move || {
        let start = Instant::now();
        *slot.lock().unwrap() = Some(start);
        while start.elapsed() < Duration::from_millis(50) {
            std::hint::spin_loop();
        }
    }));
    let slot = Arc::clone(&second_ended);
    pool.execute(Box::new(move || {
        *slot.lock().unwrap() = Some(Instant::now());
    }));
    let ran = shut_down(&mut pool);
    let total = began.elapsed();
    assert_eq!(ran, 2);
    let first = first_started.lock().unwrap().expect("the first job ran");
    let second = second_ended.lock().unwrap().expect("the second job ran");
    assert!(total >= Duration::from_millis(50));
    assert!(second > first);
    assert!(second.duration_since(first) >= Duration::from_millis(50));
}

#[test]
fn only_one_worker_is_inside_a_receive() {
    let mut pool: ThreadPool<u32> = ThreadPool::new(3);
    // the first to step takes the dequeue lock and waits inside the receive
    assert_eq!(pool.poll(1), Step::Wait);
    assert_eq!(pool.lock_holder(), Some(1));
    assert_eq!(pool.worker(1).state, WorkerState::Receiving);
    // the others are kept out
    assert_eq!(pool.poll(0), Step::Wait);
    assert_eq!(pool.poll(2), Step::Wait);
    assert_eq!(pool.worker(0).state, WorkerState::Idle);
    assert_eq!(pool.worker(2).state, WorkerState::Idle);
    // a job goes to the worker that holds the lock, and to no other
    pool.execute(5);
    assert_eq!(pool.poll(0), Step::Wait);
    assert_eq!(pool.poll(1), Step::Run(5));
    // the lock is free while the job runs
    assert_eq!(pool.lock_holder(), None);
    assert_eq!(pool.worker(1).state, WorkerState::Running);
    assert_eq!(pool.poll(2), Step::Wait);
    assert_eq!(pool.lock_holder(), Some(2));
    let receiving = (0..3)
        .filter(|&id| pool.worker(id).state == WorkerState::Receiving)
        .count();
    assert_eq!(receiving, 1);
}

#[test]
fn submit_after_shutdown_is_dropped() {
    let counter = Arc::new(AtomicUsize::new(0));
    let mut pool: ThreadPool<Job> = ThreadPool::new(2);
    assert_eq!(pool.shutdown(), ShutdownStep::WaitFor(0));
    assert!(!pool.is_open());
    let c = Arc::clone(&counter);
    pool.execute(Box::new(move || {
        c.fetch_add(1, Ordering::SeqCst);
    }));
    assert_eq!(pool.pending(), 0);
    let ran = shut_down(&mut pool);
    assert_eq!(ran, 0);
    assert_eq!(counter.load(Ordering::SeqCst), 0);
    assert!(pool.is_stopped());
    // still dropped once the pool is stopped
    let c = Arc::clone(&counter);
    pool.execute(Box::new(move || {
        c.fetch_add(1, Ordering::SeqCst);
    }));
    assert_eq!(pool.pending(), 0);
    assert_eq!(counter.load(Ordering::SeqCst), 0);
}

#[test]
fn shutdown_drains_pending_jobs_before_workers_exit() {
    let mut pool: ThreadPool<u32> = ThreadPool::new(2);
    pool.execute(1);
    pool.execute(2);
    assert_eq!(pool.shutdown(), ShutdownStep::WaitFor(0));
    assert_eq!(pool.pending(), 2);
    assert_eq!(pool.poll(0), Step::Run(1));
    assert_eq!(pool.poll(1), Step::Run(2));
    assert_eq!(pool.shutdown(), ShutdownStep::WaitFor(0));
    pool.finish(0, JobOutcome::Completed);
    assert_eq!(pool.poll(0), Step::Exit);
    assert_eq!(pool.worker(0).state, WorkerState::Exited);
    assert_eq!(pool.shutdown(), ShutdownStep::WaitFor(1));
    assert!(pool.worker(0).joined);
    assert!(!pool.worker(1).joined);
    pool.finish(1, JobOutcome::Completed);
    assert_eq!(pool.poll(1), Step::Exit);
    assert_eq!(pool.shutdown(), ShutdownStep::Done);
    assert!(pool.is_stopped());
}

#[test]
fn shutdown_joins_in_index_order() {
    let mut pool: ThreadPool<u32> = ThreadPool::new(3);
    assert_eq!(pool.shutdown(), ShutdownStep::WaitFor(0));
    // a later worker exits first: the pool still waits for the first
    assert_eq!(pool.poll(2), Step::Exit);
    assert_eq!(pool.shutdown(), ShutdownStep::WaitFor(0));
    assert!(!pool.worker(2).joined);
    assert_eq!(pool.poll(0), Step::Exit);
    assert_eq!(pool.shutdown(), ShutdownStep::WaitFor(1));
    assert!(pool.worker(0).joined);
    assert_eq!(pool.poll(1), Step::Exit);
    assert_eq!(pool.shutdown(), ShutdownStep::Done);
    assert!(pool.worker(1).joined && pool.worker(2).joined);
}

#[test]
fn shutdown_twice_changes_nothing() {
    let mut pool: ThreadPool<u32> = ThreadPool::new(2);
    assert_eq!(pool.shutdown(), ShutdownStep::WaitFor(0));
    assert_eq!(pool.poll(0), Step::Exit);
    assert_eq!(pool.poll(1), Step::Exit);
    assert_eq!(pool.shutdown(), ShutdownStep::Done);
    assert!(pool.is_stopped());
    assert_eq!(pool.shutdown(), ShutdownStep::Done);
    assert!(pool.is_stopped());
    assert!(!pool.is_open());
    assert_eq!(pool.poll(0), Step::Exit);
    for id in 0..2 {
        assert_eq!(pool.worker(id).state, WorkerState::Exited);
        assert!(pool.worker(id).joined);
    }
}

#[test]
fn failed_job_leaves_both_workers_usable() {
    let counter = Arc::new(AtomicUsize::new(0));
    let mut pool: ThreadPool<Job> = ThreadPool::new(2);
    pool.execute(Box::new(|| {}));
    match pool.poll(0) {
        Step::Run(_job) => pool.finish(0, JobOutcome::Failed),
        _ => panic!("the job was not handed out"),
    }
    assert_eq!(pool.worker(0).state, WorkerState::Idle);
    assert_eq!(pool.lock_holder(), None);
    let c = Arc::clone(&counter);
    pool.execute(Box::new(move || {
        c.fetch_add(1, Ordering::SeqCst);
    }));
    match pool.poll(1) {
        Step::Run(job) => {
            job();
            pool.finish(1, JobOutcome::Completed);
        }
        _ => panic!("the other worker did not get the job"),
    }
    assert_eq!(counter.load(Ordering::SeqCst), 1);
    let c = Arc::clone(&counter);
    pool.execute(Box::new(move || {
        c.fetch_add(1, Ordering::SeqCst);
    }));
    match pool.poll(0) {
        Step::Run(job) => {
            job();
            pool.finish(0, JobOutcome::Completed);
        }
        _ => panic!("the worker whose job failed did not get the next job"),
    }
    assert_eq!(counter.load(Ordering::SeqCst), 2);
}

#[test]
fn finish_without_a_job_changes_nothing() {
    let mut pool: ThreadPool<u32> = ThreadPool::new(1);
    pool.finish(0, JobOutcome::Completed);
    assert_eq!(pool.worker(0).state, WorkerState::Idle);
    assert_eq!(pool.poll(0), Step::Wait);
    pool.finish(0, JobOutcome::Failed);
    assert_eq!(pool.worker(0).state, WorkerState::Receiving);
    assert_eq!(pool.lock_holder(), Some(0));
}
