use std::cell::RefCell;
use std::rc::Rc;

use web_server::{valid_size, Message, WorkerPool, WorkerState};

type Job = Box<dyn FnOnce()>;

/// Runs whatever worker `id` is handed; returns whether it got a message.
fn step(pool: &mut WorkerPool<Job>, id: usize) -> Option<bool> {
    match pool.next_message(id) {
        Some(Message::NewJob(job)) => {
            job();
            Some(true)
        }
        Some(Message::Terminate) => Some(false),
        None => None,
    }
}

#[test]
fn sizes_outside_the_range_are_refused() {
    assert!(!valid_size(0));
    assert!(!valid_size(1000));
    assert!(!valid_size(5000));
    assert!(WorkerPool::<u64>::try_new(0).is_none());
    assert!(WorkerPool::<u64>::try_new(1000).is_none());
    assert!(WorkerPool::<u64>::try_new(usize::MAX).is_none());
}

#[test]
fn sizes_inside_the_range_give_that_many_workers() {
    for size in [1usize, 2, 4, 500, 999] {
        assert!(valid_size(size));
        let pool = WorkerPool::<u64>::try_new(size).unwrap();
        assert_eq!(pool.size(), size);
        for id in 0..size {
            assert_eq!(pool.worker_state(id), WorkerState::Idle);
        }
        assert_eq!(pool.pending_len(), 0);
        assert!(!pool.shutting_down());
    }
}

#[test]
fn ten_jobs_on_four_workers_run_once_each() {
    let counter = Rc::new(RefCell::new(0u32));
    let mut pool: WorkerPool<Job> = WorkerPool::new(4);
    for _ in 0..10 {
        let c = Rc::clone(&counter);
        pool.execute(Box::new(move || *c.borrow_mut() += 1));
    }
    assert_eq!(pool.pending_len(), 10);
    let mut id = 0;
    while pool.pending_len() > 0 {
        assert_eq!(step(&mut pool, id), Some(true));
        id = (id + 1) % 4;
    }
    assert_eq!(*counter.borrow(), 10);
    for id in 0..4 {
        assert_eq!(step(&mut pool, id), None);
    }
    assert_eq!(*counter.borrow(), 10);
}

#[test]
fn a_long_job_does_not_hold_up_the_other_worker() {
    let log = Rc::new(RefCell::new(Vec::new()));
    let mut pool: WorkerPool<Job> = WorkerPool::new(2);
    let l = Rc::clone(&log);
    pool.execute(Box::new(move || l.borrow_mut().push("slow")));
    let l = Rc::clone(&log);
    pool.execute(Box::new(move || l.borrow_mut().push("quick")));

    // Worker 0 takes the slow job and is still running it.
    let slow = match pool.next_message(0) {
        Some(Message::NewJob(job)) => job,
        _ => panic!("worker 0 should get the first job"),
    };
    assert_eq!(pool.worker_state(0), WorkerState::Busy);

    // Worker 1 takes and finishes the quick job meanwhile.
    assert_eq!(step(&mut pool, 1), Some(true));
    assert_eq!(*log.borrow(), vec!["quick"]);

    slow();
    assert_eq!(*log.borrow(), vec!["quick", "slow"]);
}

#[test]
fn one_worker_runs_jobs_in_submission_order() {
    let log = Rc::new(RefCell::new(Vec::new()));
    let mut pool: WorkerPool<Job> = WorkerPool::new(1);
    for i in 0..3u32 {
        let l = Rc::clone(&log);
        pool.execute(Box::new(move || l.borrow_mut().push(i)));
    }
    while step(&mut pool, 0).is_some() {}
    assert_eq!(*log.borrow(), vec![0, 1, 2]);
}

#[test]
fn shutdown_of_an_unused_pool_stops_all_five_workers() {
    let mut pool: WorkerPool<Job> = WorkerPool::new(5);
    pool.shutdown();
    assert!(pool.shutting_down());
    assert_eq!(pool.pending_len(), 5);
    for id in 0..5 {
        assert_eq!(step(&mut pool, id), Some(false));
        assert_eq!(pool.worker_state(id), WorkerState::Terminated);
    }
    assert_eq!(pool.pending_len(), 0);
}

#[test]
fn shutdown_waits_behind_queued_jobs() {
    let counter = Rc::new(RefCell::new(0u32));
    let mut pool: WorkerPool<Job> = WorkerPool::new(2);
    for _ in 0..3 {
        let c = Rc::clone(&counter);
        pool.execute(Box::new(move || *c.borrow_mut() += 1));
    }
    pool.shutdown();
    assert_eq!(pool.pending_len(), 5);
    // Every job comes out before any terminate message.
    assert_eq!(step(&mut pool, 0), Some(true));
    assert_eq!(step(&mut pool, 1), Some(true));
    assert_eq!(step(&mut pool, 0), Some(true));
    assert_eq!(*counter.borrow(), 3);
    assert_eq!(step(&mut pool, 1), Some(false));
    assert_eq!(pool.worker_state(1), WorkerState::Terminated);
    assert_eq!(step(&mut pool, 0), Some(false));
    assert_eq!(pool.worker_state(0), WorkerState::Terminated);
    assert_eq!(pool.pending_len(), 0);
}

#[test]
fn a_lost_worker_is_not_replaced() {
    let counter = Rc::new(RefCell::new(0u32));
    let mut pool: WorkerPool<Job> = WorkerPool::new(2);
    let c = Rc::clone(&counter);
    pool.execute(Box::new(move || *c.borrow_mut() += 100));
    // Worker 0 takes the job and never comes back.
    let lost = pool.next_message(0);
    assert!(matches!(lost, Some(Message::NewJob(_))));
    drop(lost);
    for _ in 0..3 {
        let c = Rc::clone(&counter);
        pool.execute(Box::new(move || *c.borrow_mut() += 1));
    }
    assert_eq!(pool.size(), 2);
    assert_eq!(pool.worker_state(0), WorkerState::Busy);
    while step(&mut pool, 1).is_some() {}
    assert_eq!(*counter.borrow(), 3);
    assert_eq!(pool.worker_state(0), WorkerState::Busy);
}
