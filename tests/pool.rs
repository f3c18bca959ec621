use std::cell::Cell;
use std::rc::Rc;
use thread_pool::{
    JobQueue, Pool, PoolError, Received, WorkerAction, WorkerEvent, WorkerState,
};

type Job = Box<dyn FnOnce()>;

/// Drives `workers` round-robin over `queue` until each is terminated or
/// stopped. A worker whose id is in `faulting` stops for good when it takes
/// its first job, without running it, as a thread that panics would.
/// Returns, per worker, whether it ended cleanly.
fn drive(queue: &mut JobQueue<Job>, workers: usize, faulting: &[usize]) -> Vec<bool> {
    let mut states = vec![WorkerState::Running; workers];
    let mut alive = vec![true; workers];
    let mut clean = vec![true; workers];
    loop {
        let mut progressed = false;
        for id in 0..workers {
            if !alive[id] || states[id].is_terminated() {
                continue;
            }
            let (next, action) = states[id].step(WorkerEvent::Received(queue.receive()));
            states[id] = next;
            match action {
                WorkerAction::Run(job) => {
                    progressed = true;
                    if faulting.contains(&id) {
                        alive[id] = false;
                        clean[id] = false;
                    } else {
                        job();
                        states[id] = states[id].step(WorkerEvent::<Job>::JobDone).0;
                    }
                }
                WorkerAction::Exit => progressed = true,
                _ => {}
            }
        }
        if !progressed {
            return clean;
        }
    }
}

fn teardown(pool: &mut Pool, clean: &[bool]) -> Vec<usize> {
    let mut order = Vec::new();
    while let Some(id) = pool.next_join() {
        order.push(id);
        pool.record_join(clean[id]);
    }
    order
}

#[test]
fn new_with_positive_size_plans_that_many_workers() {
    for size in [1usize, 2, 4, 17] {
        let pool = Pool::new(size).unwrap();
        assert_eq!(pool.size(), size);
        assert!(pool.is_accepting());
        assert!(!pool.is_torn_down());
        assert_eq!(pool.worker_ids(), (0..size).collect::<Vec<usize>>());
    }
}

#[test]
fn new_with_zero_size_is_invalid() {
    assert!(matches!(Pool::new(0), Err(PoolError::InvalidConfiguration)));
}

#[test]
fn no_join_while_accepting() {
    let pool = Pool::new(3).unwrap();
    assert_eq!(pool.next_join(), None);
}

#[test]
fn submit_goes_to_the_queue_until_teardown() {
    let mut pool = Pool::new(2).unwrap();
    let mut queue: JobQueue<u32> = JobQueue::new();
    assert_eq!(pool.submit(&mut queue, 5), Ok(()));
    assert_eq!(queue.len(), 1);
    assert!(pool.begin_teardown(&mut queue));
    assert!(!pool.is_accepting());
    assert!(queue.is_closed());
    assert_eq!(pool.submit(&mut queue, 6), Err(PoolError::QueueDisconnected));
    assert_eq!(queue.len(), 1);
    assert!(matches!(queue.receive(), Received::Job(5)));
}

#[test]
fn teardown_begins_once() {
    let mut pool = Pool::new(2).unwrap();
    let mut queue: JobQueue<u32> = JobQueue::new();
    assert!(pool.begin_teardown(&mut queue));
    assert!(!pool.begin_teardown(&mut queue));
}

#[test]
fn teardown_joins_workers_in_id_order() {
    let mut pool = Pool::new(4).unwrap();
    let mut queue: JobQueue<Job> = JobQueue::new();
    pool.begin_teardown(&mut queue);
    let order = teardown(&mut pool, &[true; 4]);
    assert_eq!(order, vec![0, 1, 2, 3]);
    assert!(pool.is_torn_down());
    assert_eq!(pool.faulted_workers(), 0);
    assert_eq!(pool.next_join(), None);
}

#[test]
fn teardown_with_no_jobs_finishes() {
    let mut pool = Pool::new(3).unwrap();
    let mut queue: JobQueue<Job> = JobQueue::new();
    pool.begin_teardown(&mut queue);
    let clean = drive(&mut queue, pool.size(), &[]);
    assert_eq!(clean, vec![true; 3]);
    teardown(&mut pool, &clean);
    assert!(pool.is_torn_down());
}

#[test]
fn every_job_runs_once_before_teardown_ends() {
    let counter = Rc::new(Cell::new(0u32));
    let mut pool = Pool::new(4).unwrap();
    let mut queue: JobQueue<Job> = JobQueue::new();
    for _ in 0..1000 {
        let c = Rc::clone(&counter);
        pool.submit(&mut queue, Box::new(move || c.set(c.get() + 1))).unwrap();
    }
    pool.begin_teardown(&mut queue);
    let clean = drive(&mut queue, pool.size(), &[]);
    teardown(&mut pool, &clean);
    assert!(pool.is_torn_down());
    assert_eq!(counter.get(), 1000);
}

#[test]
fn jobs_start_in_submission_order() {
    let log = Rc::new(std::cell::RefCell::new(Vec::new()));
    let mut pool = Pool::new(2).unwrap();
    let mut queue: JobQueue<Job> = JobQueue::new();
    for i in 0..6u32 {
        let l = Rc::clone(&log);
        pool.submit(&mut queue, Box::new(move || l.borrow_mut().push(i))).unwrap();
    }
    pool.begin_teardown(&mut queue);
    let clean = drive(&mut queue, pool.size(), &[]);
    teardown(&mut pool, &clean);
    assert_eq!(*log.borrow(), vec![0, 1, 2, 3, 4, 5]);
}

#[test]
fn faulting_job_does_not_block_teardown() {
    let size = 3usize;
    let counter = Rc::new(Cell::new(0u32));
    let mut pool = Pool::new(size).unwrap();
    let mut queue: JobQueue<Job> = JobQueue::new();
    for _ in 0..size + 1 {
        let c = Rc::clone(&counter);
        pool.submit(&mut queue, Box::new(move || c.set(c.get() + 1))).unwrap();
    }
    pool.begin_teardown(&mut queue);
    let clean = drive(&mut queue, size, &[0]);
    assert_eq!(clean, vec![false, true, true]);
    let order = teardown(&mut pool, &clean);
    assert_eq!(order, vec![0, 1, 2]);
    assert!(pool.is_torn_down());
    assert_eq!(pool.faulted_workers(), 1);
    assert_eq!(counter.get(), size as u32);
}
