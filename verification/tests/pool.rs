use std::sync::atomic::{AtomicU32, Ordering};
use std::sync::{Arc, Mutex};

use web_server::model::{Phase, WorkerState};
use web_server::pool::{Action, JoinStep};
use web_server::ThreadPool;

type Job = Box<dyn FnOnce() + Send + 'static>;

/// Lets every worker in turn take a message and run it, until a whole
/// round passes in which every worker that is still alive was told to wait.
fn run_round_robin(pool: &mut ThreadPool<Job>) {
    loop {
        let mut moved = false;
        for id in 0..pool.size() {
            if pool.worker_state(id) != WorkerState::Waiting {
                continue;
            }
            match pool.poll(id) {
                Action::Wait => {}
                Action::Run(job) => {
                    job();
                    pool.complete(id);
                    moved = true;
                }
                Action::Exit => {
                    moved = true;
                }
            }
        }
        if !moved {
            break;
        }
    }
}

fn counting_job(counter: &Arc<AtomicU32>) -> Job {
    let counter = Arc::clone(counter);
    Box::new(move || {
        counter.fetch_add(1, Ordering::SeqCst);
    })
}

fn logging_job(log: &Arc<Mutex<Vec<&'static str>>>, name: &'static str) -> Job {
    let log = Arc::clone(log);
    Box::new(move || log.lock().unwrap().push(name))
}

#[test]
fn new_pool_has_one_waiting_worker_per_unit_of_size() {
    for size in 1..=8usize {
        let pool: ThreadPool<Job> = ThreadPool::new(size);
        assert_eq!(pool.size(), size);
        assert_eq!(pool.phase(), Phase::Active);
        assert_eq!(pool.queued(), 0);
        assert_eq!(pool.joined(), 0);
        for id in 0..size {
            assert_eq!(pool.worker_state(id), WorkerState::Waiting);
        }
    }
}

#[test]
fn hundred_jobs_on_four_workers_each_run_once() {
    let counter = Arc::new(AtomicU32::new(0));
    let mut pool: ThreadPool<Job> = ThreadPool::new(4);
    for _ in 0..100 {
        pool.execute(counting_job(&counter));
    }
    assert_eq!(pool.queued(), 100);
    assert_eq!(counter.load(Ordering::SeqCst), 0);
    run_round_robin(&mut pool);
    assert_eq!(counter.load(Ordering::SeqCst), 100);
    assert_eq!(pool.queued(), 0);
}

#[test]
fn every_pool_size_runs_every_job_once() {
    for size in 1..=6usize {
        let counter = Arc::new(AtomicU32::new(0));
        let mut pool: ThreadPool<Job> = ThreadPool::new(size);
        for _ in 0..25 {
            pool.execute(counting_job(&counter));
        }
        run_round_robin(&mut pool);
        assert_eq!(counter.load(Ordering::SeqCst), 25);
    }
}

#[test]
fn poll_on_an_empty_queue_tells_the_worker_to_wait() {
    let mut pool: ThreadPool<Job> = ThreadPool::new(2);
    assert!(matches!(pool.poll(0), Action::Wait));
    assert!(matches!(pool.poll(1), Action::Wait));
    assert_eq!(pool.worker_state(0), WorkerState::Waiting);
    assert_eq!(pool.worker_state(1), WorkerState::Waiting);
    assert_eq!(pool.queued(), 0);
}

#[test]
fn a_worker_executes_until_it_reports_completion() {
    let counter = Arc::new(AtomicU32::new(0));
    let mut pool: ThreadPool<Job> = ThreadPool::new(2);
    pool.execute(counting_job(&counter));
    let job = match pool.poll(1) {
        Action::Run(job) => job,
        _ => panic!("the queued job was not handed out"),
    };
    assert_eq!(pool.worker_state(1), WorkerState::Executing);
    assert_eq!(pool.worker_state(0), WorkerState::Waiting);
    assert_eq!(pool.queued(), 0);
    assert_eq!(counter.load(Ordering::SeqCst), 0);
    job();
    pool.complete(1);
    assert_eq!(pool.worker_state(1), WorkerState::Waiting);
    assert_eq!(counter.load(Ordering::SeqCst), 1);
}

#[test]
fn jobs_are_handed_out_in_the_order_of_submission() {
    let log = Arc::new(Mutex::new(Vec::new()));
    let mut pool: ThreadPool<Job> = ThreadPool::new(3);
    pool.execute(logging_job(&log, "a"));
    pool.execute(logging_job(&log, "b"));
    pool.execute(logging_job(&log, "c"));
    for id in [2usize, 0, 1] {
        match pool.poll(id) {
            Action::Run(job) => job(),
            _ => panic!("a job was queued"),
        }
    }
    assert_eq!(*log.lock().unwrap(), vec!["a", "b", "c"]);
}

#[test]
fn single_worker_completes_each_job_before_the_next_begins() {
    let log = Arc::new(Mutex::new(Vec::new()));
    let mut pool: ThreadPool<Job> = ThreadPool::new(1);
    pool.execute(logging_job(&log, "a"));
    pool.execute(logging_job(&log, "b"));
    let first = match pool.poll(0) {
        Action::Run(job) => job,
        _ => panic!("a job was queued"),
    };
    // The only worker is busy: nobody can take the second job yet.
    assert_eq!(pool.worker_state(0), WorkerState::Executing);
    assert_eq!(pool.queued(), 1);
    first();
    pool.complete(0);
    assert_eq!(*log.lock().unwrap(), vec!["a"]);
    run_round_robin(&mut pool);
    assert_eq!(*log.lock().unwrap(), vec!["a", "b"]);
}

#[test]
fn two_workers_may_finish_out_of_order() {
    let log = Arc::new(Mutex::new(Vec::new()));
    let mut pool: ThreadPool<Job> = ThreadPool::new(2);
    pool.execute(logging_job(&log, "a"));
    pool.execute(logging_job(&log, "b"));
    let a = match pool.poll(0) {
        Action::Run(job) => job,
        _ => panic!("a job was queued"),
    };
    let b = match pool.poll(1) {
        Action::Run(job) => job,
        _ => panic!("a job was queued"),
    };
    b();
    pool.complete(1);
    a();
    pool.complete(0);
    assert_eq!(*log.lock().unwrap(), vec!["b", "a"]);
}

#[test]
fn shutdown_queues_one_termination_per_worker_behind_the_jobs() {
    let counter = Arc::new(AtomicU32::new(0));
    let mut pool: ThreadPool<Job> = ThreadPool::new(3);
    pool.execute(counting_job(&counter));
    pool.execute(counting_job(&counter));
    pool.shutdown();
    assert_eq!(pool.phase(), Phase::ShuttingDown);
    assert_eq!(pool.queued(), 5);
    // The jobs come out first, the terminations after them.
    assert!(matches!(pool.poll(0), Action::Run(_)));
    assert!(matches!(pool.poll(1), Action::Run(_)));
    assert!(matches!(pool.poll(2), Action::Exit));
    assert_eq!(pool.worker_state(2), WorkerState::Terminated);
    assert_eq!(pool.queued(), 2);
}

#[test]
fn disposal_waits_for_every_queued_job_and_leaves_no_live_worker() {
    let counter = Arc::new(AtomicU32::new(0));
    let mut pool: ThreadPool<Job> = ThreadPool::new(3);
    for _ in 0..10 {
        pool.execute(counting_job(&counter));
    }
    // One job is in flight when the shutdown begins.
    let in_flight = match pool.poll(1) {
        Action::Run(job) => job,
        _ => panic!("a job was queued"),
    };
    pool.shutdown();
    // Nobody has terminated yet, so nobody can be joined.
    assert_eq!(pool.join_next(), JoinStep::Pending(0));
    assert_eq!(pool.phase(), Phase::ShuttingDown);
    in_flight();
    pool.complete(1);
    run_round_robin(&mut pool);
    assert_eq!(counter.load(Ordering::SeqCst), 10);
    assert_eq!(pool.queued(), 0);
    assert_eq!(pool.join_next(), JoinStep::Joined(0));
    assert_eq!(pool.join_next(), JoinStep::Joined(1));
    assert_eq!(pool.phase(), Phase::ShuttingDown);
    assert_eq!(pool.join_next(), JoinStep::Joined(2));
    assert_eq!(pool.phase(), Phase::Disposed);
    assert_eq!(pool.joined(), 3);
    assert_eq!(pool.join_next(), JoinStep::Done);
    for id in 0..3 {
        assert_eq!(pool.worker_state(id), WorkerState::Terminated);
    }
}

#[test]
fn workers_are_joined_in_order_of_their_ids() {
    let mut pool: ThreadPool<Job> = ThreadPool::new(2);
    pool.shutdown();
    // Worker 1 stops first; the pool still waits for worker 0.
    assert!(matches!(pool.poll(1), Action::Exit));
    assert_eq!(pool.join_next(), JoinStep::Pending(0));
    assert_eq!(pool.joined(), 0);
    assert!(matches!(pool.poll(0), Action::Exit));
    assert_eq!(pool.join_next(), JoinStep::Joined(0));
    assert_eq!(pool.join_next(), JoinStep::Joined(1));
    assert_eq!(pool.join_next(), JoinStep::Done);
    assert_eq!(pool.phase(), Phase::Disposed);
}

#[test]
fn an_active_pool_joins_nobody() {
    let mut pool: ThreadPool<Job> = ThreadPool::new(2);
    assert_eq!(pool.join_next(), JoinStep::Pending(0));
    assert_eq!(pool.phase(), Phase::Active);
    assert_eq!(pool.joined(), 0);
}

#[test]
fn submissions_in_either_order_are_both_run() {
    for a_first in [true, false] {
        let log = Arc::new(Mutex::new(Vec::new()));
        let mut pool: ThreadPool<Job> = ThreadPool::new(2);
        if a_first {
            pool.execute(logging_job(&log, "a"));
            pool.execute(logging_job(&log, "b"));
        } else {
            pool.execute(logging_job(&log, "b"));
            pool.execute(logging_job(&log, "a"));
        }
        assert_eq!(pool.queued(), 2);
        run_round_robin(&mut pool);
        let mut ran = log.lock().unwrap().clone();
        ran.sort();
        assert_eq!(ran, vec!["a", "b"]);
    }
}

#[test]
fn a_fault_leaves_the_queue_to_the_other_workers() {
    let counter = Arc::new(AtomicU32::new(0));
    let mut pool: ThreadPool<Job> = ThreadPool::new(2);
    pool.execute(Box::new(|| {}));
    for _ in 0..5 {
        pool.execute(counting_job(&counter));
    }
    // Worker 0 takes the first job and dies in it.
    assert!(matches!(pool.poll(0), Action::Run(_)));
    pool.fault(0);
    assert_eq!(pool.worker_state(0), WorkerState::Crashed);
    assert_eq!(pool.worker_state(1), WorkerState::Waiting);
    assert_eq!(pool.queued(), 5);
    // Worker 1 still gets every job that was queued.
    run_round_robin(&mut pool);
    assert_eq!(counter.load(Ordering::SeqCst), 5);
    assert_eq!(pool.queued(), 0);
    assert_eq!(pool.worker_state(0), WorkerState::Crashed);
}

#[test]
fn a_crashed_worker_cannot_be_joined() {
    let mut pool: ThreadPool<Job> = ThreadPool::new(2);
    pool.execute(Box::new(|| {}));
    assert!(matches!(pool.poll(0), Action::Run(_)));
    pool.fault(0);
    pool.shutdown();
    run_round_robin(&mut pool);
    assert_eq!(pool.worker_state(1), WorkerState::Terminated);
    assert_eq!(pool.join_next(), JoinStep::Failed(0));
    assert_eq!(pool.join_next(), JoinStep::Failed(0));
    assert_eq!(pool.phase(), Phase::ShuttingDown);
    assert_eq!(pool.joined(), 0);
    // The termination meant for the dead worker stays in the queue.
    assert_eq!(pool.queued(), 1);
}

#[test]
fn worker_records_start_waiting_with_their_id() {
    let worker = web_server::pool::Worker::new(7);
    assert_eq!(worker.id(), 7);
    assert_eq!(worker.state(), WorkerState::Waiting);
}
