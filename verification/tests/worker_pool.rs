use espresso::error::EspressoProcessingError;
use espresso::threads::stream_threads::ThreadPool;
use espresso::threads::TPool;
use std::cell::RefCell;
use std::rc::Rc;

type Job = Box<dyn FnOnce()>;

/// Plays the workers of a pool in turn until nothing is queued or running,
/// running each task as it is handed out.
fn drain(pool: &mut ThreadPool<Job>) {
    loop {
        let mut progressed = false;
        for worker in 0..pool.size() {
            if let Some(job) = pool.take(worker) {
                job();
                assert!(pool.finish(worker, false));
                progressed = true;
            }
        }
        if !progressed {
            break;
        }
    }
}

#[test]
fn every_submitted_task_completes_exactly_once() {
    for size in [1usize, 2, 3, 8] {
        for tasks in [0usize, 1, 5, 64] {
            let runs = Rc::new(RefCell::new(vec![0u32; tasks]));
            let mut pool: ThreadPool<Job> = ThreadPool::new(size);
            for id in 0..tasks {
                let runs = Rc::clone(&runs);
                assert_eq!(pool.exec(Box::new(move || runs.borrow_mut()[id] += 1)), Ok(()));
            }
            assert_eq!(pool.accepted(), tasks);
            assert_eq!(pool.pending(), tasks);
            drain(&mut pool);
            assert_eq!(pool.finished(), tasks);
            assert_eq!(pool.failed(), 0);
            assert_eq!(pool.pending(), 0);
            assert_eq!(pool.busy_count(), 0);
            assert_eq!(*runs.borrow(), vec![1u32; tasks]);
        }
    }
}

#[test]
fn a_large_pool_keeps_up_with_many_tasks() {
    let result = Rc::new(RefCell::new(0u32));
    let mut pool: ThreadPool<Job> = ThreadPool::new(100);
    for _ in 0..1000000 {
        let t = Rc::clone(&result);
        assert_eq!(pool.exec(Box::new(move || *t.borrow_mut() += 1)), Ok(()));
    }
    drain(&mut pool);
    assert!(*result.borrow() == 1000000);
    assert_eq!(pool.finished(), 1000000);
}

#[test]
fn tasks_are_handed_out_first_in_first_out() {
    let mut pool: ThreadPool<u32> = ThreadPool::new(3);
    for id in 10..16 {
        assert_eq!(pool.exec(id), Ok(()));
    }
    assert_eq!(pool.take(2), Some(10));
    assert_eq!(pool.take(0), Some(11));
    assert_eq!(pool.take(2), None);
    assert_eq!(pool.take(1), Some(12));
    assert_eq!(pool.take(1), None);
    assert_eq!(pool.busy_count(), 3);
    assert_eq!(pool.idle_worker(), None);
    assert!(pool.finish(0, false));
    assert_eq!(pool.idle_worker(), Some(0));
    assert_eq!(pool.take(0), Some(13));
    assert!(pool.finish(2, false));
    assert!(pool.finish(1, false));
    assert_eq!(pool.idle_worker(), Some(1));
    assert_eq!(pool.take(2), Some(14));
    assert_eq!(pool.take(1), Some(15));
    assert_eq!(pool.take(1), None);
    assert_eq!(pool.pending(), 0);
    assert_eq!(pool.accepted(), 6);
    assert_eq!(pool.finished(), 3);
    assert_eq!(pool.busy_count(), 3);
}

#[test]
fn a_panicking_task_does_not_stop_its_worker() {
    let mut pool: ThreadPool<&str> = ThreadPool::new(1);
    assert_eq!(pool.exec("bad"), Ok(()));
    assert_eq!(pool.take(0), Some("bad"));
    assert!(pool.is_busy(0));
    assert!(pool.finish(0, true));
    assert!(!pool.is_busy(0));
    assert!(pool.is_open());
    assert_eq!(pool.failed(), 1);
    assert_eq!(pool.exec("good"), Ok(()));
    assert_eq!(pool.take(0), Some("good"));
    assert!(pool.finish(0, false));
    assert_eq!(pool.finished(), 2);
    assert_eq!(pool.failed(), 1);
    assert_eq!(pool.busy_count(), 0);
}

#[test]
fn events_that_do_not_apply_change_nothing() {
    let mut pool: ThreadPool<u8> = ThreadPool::new(2);
    assert_eq!(pool.size(), 2);
    assert_eq!(pool.take(0), None);
    assert!(!pool.finish(0, false));
    assert!(!pool.finish(5, true));
    assert_eq!(pool.exec(1), Ok(()));
    assert_eq!(pool.take(2), None);
    assert_eq!(pool.take(9), None);
    assert!(!pool.is_busy(9));
    assert_eq!(pool.pending(), 1);
    assert_eq!(pool.finished(), 0);
    assert_eq!(pool.failed(), 0);
    assert_eq!(pool.busy_count(), 0);
}

#[test]
fn a_closed_pool_refuses_tasks_and_drains_its_queue() {
    let mut pool: ThreadPool<u8> = ThreadPool::new(1);
    assert_eq!(pool.exec(1), Ok(()));
    assert_eq!(pool.exec(2), Ok(()));
    assert!(!pool.drained());
    pool.close();
    assert!(!pool.is_open());
    assert_eq!(pool.exec(3), Err(EspressoProcessingError::FailedThreadPool));
    assert_eq!(pool.accepted(), 2);
    assert!(!pool.drained());
    assert_eq!(pool.take(0), Some(1));
    assert!(pool.finish(0, false));
    assert_eq!(pool.take(0), Some(2));
    assert!(pool.drained());
    assert!(pool.finish(0, false));
    assert_eq!(pool.take(0), None);
    assert_eq!(pool.finished(), 2);
}
