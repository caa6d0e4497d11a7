use mini_server::lock::Lock;
use mini_server::pool::{Teardown, ThreadPool};
use mini_server::queue::DeliveryError;
use mini_server::worker::{Action, Exit, Worker, WorkerState};
use std::cell::RefCell;
use std::rc::Rc;

/// The ids of the workers that hold the lock and look for an item.
fn waiting(pool: &ThreadPool<u32>) -> Vec<usize> {
    (0..pool.size()).filter(|id| pool.worker(*id).state == WorkerState::Waiting).collect()
}

/// At most one worker is at the queue's receiving end, and it holds the lock.
fn check_one_receiver(pool: &ThreadPool<u32>) {
    let at_queue = waiting(pool);
    assert!(at_queue.len() <= 1);
    match pool.lock() {
        Lock::Held(holder) => assert_eq!(at_queue, vec![holder]),
        _ => assert!(at_queue.is_empty()),
    }
}

/// Lets the workers take turns until teardown is done. Each item that a
/// worker takes is recorded, and ends at once: normally, or by aborting its
/// worker where `fails` says so.
fn drain(pool: &mut ThreadPool<u32>, fails: &dyn Fn(u32) -> bool) -> Vec<(usize, u32)> {
    let mut record: Vec<(usize, u32)> = Vec::new();
    let mut rounds = 0;
    while pool.teardown() != Teardown::Done {
        rounds += 1;
        assert!(rounds < 10_000, "teardown does not come to an end");
        for id in 0..pool.size() {
            match pool.advance(id) {
                Action::Run(item) => {
                    record.push((id, item));
                    if fails(item) {
                        assert!(pool.abort(id));
                    } else {
                        assert!(pool.finish(id));
                    }
                }
                Action::Wait | Action::Stop => {}
            }
            check_one_receiver(pool);
        }
    }
    record
}

#[test]
fn new_pool_has_exactly_size_live_idle_workers() {
    for size in [1usize, 2, 4, 17] {
        let pool: ThreadPool<u32> = ThreadPool::new(size);
        assert_eq!(pool.size(), size);
        assert_eq!(pool.live_workers(), size);
        for id in 0..size {
            assert_eq!(pool.worker(id), Worker { id, state: WorkerState::Idle });
        }
        assert_eq!(pool.lock(), Lock::Free);
        assert_eq!(pool.pending(), 0);
        assert!(!pool.is_closed());
    }
}

#[test]
fn single_worker_runs_items_in_submission_order() {
    let mut pool: ThreadPool<u32> = ThreadPool::new(1);
    assert_eq!(pool.execute(1), Ok(()));
    assert_eq!(pool.execute(2), Ok(()));
    assert_eq!(pool.execute(3), Ok(()));
    assert_eq!(pool.teardown(), Teardown::Wait(0));
    let mut record: Vec<u32> = Vec::new();
    loop {
        match pool.advance(0) {
            Action::Run(item) => {
                record.push(item);
                assert!(pool.finish(0));
            }
            Action::Wait => panic!("a closed queue never makes its only worker wait"),
            Action::Stop => break,
        }
    }
    assert_eq!(record, vec![1, 2, 3]);
    assert_eq!(pool.teardown(), Teardown::Done);
}

#[test]
fn single_worker_does_not_take_the_next_item_before_the_first_ends() {
    let mut pool: ThreadPool<u32> = ThreadPool::new(1);
    assert_eq!(pool.execute(1), Ok(()));
    assert_eq!(pool.execute(2), Ok(()));
    assert_eq!(pool.advance(0), Action::Run(1));
    assert_eq!(pool.advance(0), Action::Wait);
    assert_eq!(pool.advance(0), Action::Wait);
    assert_eq!(pool.pending(), 1);
    assert_eq!(pool.worker(0).state, WorkerState::Executing);
    assert!(pool.finish(0));
    assert_eq!(pool.advance(0), Action::Run(2));
}

#[test]
fn four_workers_run_a_hundred_items_once_each() {
    let mut pool: ThreadPool<u32> = ThreadPool::new(4);
    for item in 0..100 {
        assert_eq!(pool.execute(item), Ok(()));
    }
    assert_eq!(pool.pending(), 100);
    let record = drain(&mut pool, &|_| false);
    assert_eq!(record.len(), 100);
    let mut counter = vec![0u32; 100];
    for (_, item) in &record {
        counter[*item as usize] += 1;
    }
    assert!(counter.iter().all(|n| *n == 1));
    assert_eq!(pool.pending(), 0);
    assert_eq!(pool.live_workers(), 0);
    for id in 0..4 {
        assert_eq!(pool.worker(id).state, WorkerState::Terminated(Exit::EndOfStream));
    }
    assert_eq!(pool.teardown(), Teardown::Done);
}

#[test]
fn items_leave_the_queue_in_submission_order_across_workers() {
    let mut pool: ThreadPool<u32> = ThreadPool::new(3);
    for item in [10, 20, 30, 40, 50, 60, 70] {
        assert_eq!(pool.execute(item), Ok(()));
    }
    let record = drain(&mut pool, &|_| false);
    let items: Vec<u32> = record.iter().map(|(_, item)| *item).collect();
    assert_eq!(items, vec![10, 20, 30, 40, 50, 60, 70]);
}

#[test]
fn later_item_may_end_before_an_earlier_one() {
    let mut pool: ThreadPool<u32> = ThreadPool::new(3);
    for item in [1, 2, 3] {
        assert_eq!(pool.execute(item), Ok(()));
    }
    assert_eq!(pool.advance(0), Action::Run(1));
    assert_eq!(pool.advance(1), Action::Run(2));
    assert_eq!(pool.advance(2), Action::Run(3));
    assert!(pool.finish(2));
    assert!(pool.finish(1));
    assert_eq!(pool.worker(0).state, WorkerState::Executing);
    assert_eq!(pool.worker(1).state, WorkerState::Idle);
    assert_eq!(pool.worker(2).state, WorkerState::Idle);
    assert!(pool.finish(0));
    assert_eq!(pool.pending(), 0);
}

#[test]
fn one_worker_at_a_time_waits_at_the_queue() {
    let mut pool: ThreadPool<u32> = ThreadPool::new(3);
    assert_eq!(pool.advance(1), Action::Wait);
    assert_eq!(pool.worker(1).state, WorkerState::Waiting);
    assert_eq!(pool.lock(), Lock::Held(1));
    assert_eq!(pool.advance(0), Action::Wait);
    assert_eq!(pool.advance(2), Action::Wait);
    assert_eq!(pool.worker(0).state, WorkerState::Idle);
    assert_eq!(pool.worker(2).state, WorkerState::Idle);
    check_one_receiver(&pool);
    assert_eq!(pool.execute(5), Ok(()));
    assert_eq!(pool.advance(0), Action::Wait);
    assert_eq!(pool.pending(), 1);
    assert_eq!(pool.advance(1), Action::Run(5));
    assert_eq!(pool.lock(), Lock::Free);
    assert_eq!(pool.advance(0), Action::Wait);
    assert_eq!(pool.worker(0).state, WorkerState::Waiting);
    assert_eq!(pool.lock(), Lock::Held(0));
    check_one_receiver(&pool);
}

#[test]
fn submission_after_teardown_is_a_delivery_error() {
    let mut pool: ThreadPool<u32> = ThreadPool::new(2);
    assert_eq!(pool.execute(1), Ok(()));
    assert_eq!(pool.teardown(), Teardown::Wait(0));
    assert!(pool.is_closed());
    assert_eq!(pool.execute(2), Err(DeliveryError(2)));
    assert_eq!(pool.pending(), 1);
    let record = drain(&mut pool, &|_| false);
    assert_eq!(record.len(), 1);
    assert_eq!(record[0].1, 1);
    assert_eq!(pool.execute(3), Err(DeliveryError(3)));
    assert_eq!(pool.pending(), 0);
}

#[test]
fn teardown_names_the_first_live_worker() {
    let mut pool: ThreadPool<u32> = ThreadPool::new(3);
    assert_eq!(pool.teardown(), Teardown::Wait(0));
    assert_eq!(pool.advance(1), Action::Stop);
    assert_eq!(pool.teardown(), Teardown::Wait(0));
    assert_eq!(pool.advance(0), Action::Stop);
    assert_eq!(pool.teardown(), Teardown::Wait(2));
    assert_eq!(pool.live_workers(), 1);
    assert_eq!(pool.advance(2), Action::Stop);
    assert_eq!(pool.teardown(), Teardown::Done);
    assert_eq!(pool.live_workers(), 0);
    assert_eq!(pool.advance(2), Action::Stop);
    assert_eq!(pool.teardown(), Teardown::Done);
}

#[test]
fn teardown_waits_for_an_item_that_is_still_running() {
    let mut pool: ThreadPool<u32> = ThreadPool::new(2);
    assert_eq!(pool.execute(1), Ok(()));
    assert_eq!(pool.advance(1), Action::Run(1));
    assert_eq!(pool.teardown(), Teardown::Wait(0));
    assert_eq!(pool.advance(0), Action::Stop);
    assert_eq!(pool.teardown(), Teardown::Wait(1));
    assert_eq!(pool.advance(1), Action::Wait);
    assert_eq!(pool.teardown(), Teardown::Wait(1));
    assert!(pool.finish(1));
    assert_eq!(pool.advance(1), Action::Stop);
    assert_eq!(pool.teardown(), Teardown::Done);
}

#[test]
fn closing_the_queue_unblocks_the_waiting_worker() {
    let mut pool: ThreadPool<u32> = ThreadPool::new(2);
    assert_eq!(pool.advance(0), Action::Wait);
    assert_eq!(pool.advance(1), Action::Wait);
    assert_eq!(pool.teardown(), Teardown::Wait(0));
    assert_eq!(pool.advance(1), Action::Wait);
    assert_eq!(pool.advance(0), Action::Stop);
    assert_eq!(pool.lock(), Lock::Free);
    assert_eq!(pool.advance(1), Action::Stop);
    assert_eq!(pool.teardown(), Teardown::Done);
}

#[test]
fn aborting_item_does_not_stop_the_other_ninety_nine() {
    let mut pool: ThreadPool<u32> = ThreadPool::new(4);
    for item in 0..100 {
        assert_eq!(pool.execute(item), Ok(()));
    }
    let record = drain(&mut pool, &|item| item == 13);
    assert_eq!(record.len(), 100);
    let items: Vec<u32> = record.iter().map(|(_, item)| *item).collect();
    assert_eq!(items, (0..100).collect::<Vec<u32>>());
    let unlucky = record[13].0;
    assert_eq!(pool.worker(unlucky).state, WorkerState::Terminated(Exit::Aborted));
    assert!(record[14..].iter().all(|(id, _)| *id != unlucky));
    for id in 0..4 {
        if id != unlucky {
            assert_eq!(pool.worker(id).state, WorkerState::Terminated(Exit::EndOfStream));
        }
    }
    assert_eq!(pool.pending(), 0);
    assert_eq!(pool.lock(), Lock::Free);
}

#[test]
fn aborted_worker_is_not_replaced() {
    let mut pool: ThreadPool<u32> = ThreadPool::new(2);
    assert_eq!(pool.execute(1), Ok(()));
    assert_eq!(pool.advance(0), Action::Run(1));
    assert!(pool.abort(0));
    assert_eq!(pool.size(), 2);
    assert_eq!(pool.live_workers(), 1);
    assert_eq!(pool.worker(0).state, WorkerState::Terminated(Exit::Aborted));
    assert!(!pool.abort(0));
    assert!(!pool.finish(0));
    assert_eq!(pool.advance(0), Action::Stop);
    assert_eq!(pool.live_workers(), 1);
    assert_eq!(pool.execute(2), Ok(()));
    assert_eq!(pool.advance(1), Action::Run(2));
}

#[test]
fn pool_without_live_workers_refuses_work() {
    let mut pool: ThreadPool<u32> = ThreadPool::new(1);
    assert_eq!(pool.execute(1), Ok(()));
    assert_eq!(pool.execute(2), Ok(()));
    assert_eq!(pool.advance(0), Action::Run(1));
    assert!(pool.abort(0));
    assert_eq!(pool.live_workers(), 0);
    assert!(!pool.is_closed());
    assert_eq!(pool.execute(3), Err(DeliveryError(3)));
    assert_eq!(pool.pending(), 1);
    assert_eq!(pool.teardown(), Teardown::Done);
    assert_eq!(pool.pending(), 1);
}

#[test]
fn abort_at_the_queue_poisons_the_lock_for_the_others() {
    let mut pool: ThreadPool<u32> = ThreadPool::new(3);
    assert_eq!(pool.execute(1), Ok(()));
    assert_eq!(pool.advance(2), Action::Run(1));
    assert_eq!(pool.advance(0), Action::Wait);
    assert_eq!(pool.lock(), Lock::Held(0));
    assert!(pool.abort(0));
    assert_eq!(pool.lock(), Lock::Poisoned);
    assert_eq!(pool.worker(0).state, WorkerState::Terminated(Exit::Aborted));
    assert_eq!(pool.execute(2), Ok(()));
    assert_eq!(pool.advance(1), Action::Stop);
    assert_eq!(pool.worker(1).state, WorkerState::Terminated(Exit::LockPoisoned));
    assert!(pool.finish(2));
    assert_eq!(pool.advance(2), Action::Stop);
    assert_eq!(pool.worker(2).state, WorkerState::Terminated(Exit::LockPoisoned));
    assert_eq!(pool.lock(), Lock::Poisoned);
    assert_eq!(pool.pending(), 1);
    assert_eq!(pool.execute(3), Err(DeliveryError(3)));
    assert_eq!(pool.teardown(), Teardown::Done);
}

#[test]
fn finish_and_abort_report_what_they_found() {
    let mut pool: ThreadPool<u32> = ThreadPool::new(2);
    assert!(!pool.finish(0));
    assert_eq!(pool.worker(0).state, WorkerState::Idle);
    assert!(pool.abort(1));
    assert_eq!(pool.worker(1).state, WorkerState::Terminated(Exit::Aborted));
    assert_eq!(pool.lock(), Lock::Free);
    assert_eq!(pool.live_workers(), 1);
}

#[test]
fn every_schedule_runs_each_item_once_and_in_order() {
    let mut seed: u64 = 0x2545_f491_4f6c_dd1d;
    let mut next = move |bound: u64| -> u64 {
        seed ^= seed << 13;
        seed ^= seed >> 7;
        seed ^= seed << 17;
        seed % bound
    };
    for trial in 0..200u32 {
        let size = 1 + next(5) as usize;
        let total = next(40) as u32;
        let mut pool: ThreadPool<u32> = ThreadPool::new(size);
        let mut submitted: u32 = 0;
        let mut taken: Vec<u32> = Vec::new();
        let mut ended: Vec<u32> = Vec::new();
        let mut running: Vec<Option<u32>> = vec![None; size];
        let mut closing = false;
        let mut steps = 0;
        loop {
            steps += 1;
            assert!(steps < 100_000, "trial {trial} does not come to an end");
            if !closing && submitted == total {
                closing = true;
            }
            if closing && pool.teardown() == Teardown::Done {
                break;
            }
            let id = next(size as u64) as usize;
            match next(3) {
                0 if submitted < total => {
                    assert_eq!(pool.execute(submitted), Ok(()));
                    submitted += 1;
                }
                1 => {
                    let was = running[id].take();
                    assert_eq!(pool.finish(id), was.is_some());
                    if let Some(item) = was {
                        ended.push(item);
                    }
                }
                _ => match pool.advance(id) {
                    Action::Run(item) => {
                        assert!(running[id].is_none());
                        running[id] = Some(item);
                        taken.push(item);
                    }
                    Action::Wait | Action::Stop => {}
                },
            }
            check_one_receiver(&pool);
            assert_eq!(pool.pending() + taken.len(), submitted as usize);
        }
        assert_eq!(taken, (0..total).collect::<Vec<u32>>());
        ended.sort();
        assert_eq!(ended, (0..total).collect::<Vec<u32>>());
        assert_eq!(pool.pending(), 0);
        assert_eq!(pool.live_workers(), 0);
    }
}

#[test]
fn item_failures_strand_no_work_while_a_worker_survives() {
    let mut seed: u64 = 0x9e37_79b9_7f4a_7c15;
    let mut next = move |bound: u64| -> u64 {
        seed ^= seed << 13;
        seed ^= seed >> 7;
        seed ^= seed << 17;
        seed % bound
    };
    for _ in 0..200 {
        let size = 2 + next(4) as usize;
        let total = 1 + next(60) as u32;
        let mut failing: Vec<u32> = Vec::new();
        for _ in 0..next(size as u64) {
            failing.push(next(total as u64) as u32);
        }
        failing.sort();
        failing.dedup();
        let mut pool: ThreadPool<u32> = ThreadPool::new(size);
        for item in 0..total {
            assert_eq!(pool.execute(item), Ok(()));
        }
        let record = drain(&mut pool, &|item| failing.contains(&item));
        let items: Vec<u32> = record.iter().map(|(_, item)| *item).collect();
        assert_eq!(items, (0..total).collect::<Vec<u32>>());
        assert_eq!(pool.pending(), 0);
        assert_eq!(pool.lock(), Lock::Free);
        let aborted = (0..size)
            .filter(|id| pool.worker(*id).state == WorkerState::Terminated(Exit::Aborted))
            .count();
        let drained = (0..size)
            .filter(|id| pool.worker(*id).state == WorkerState::Terminated(Exit::EndOfStream))
            .count();
        assert_eq!(aborted, failing.len());
        assert_eq!(aborted + drained, size);
        assert!(drained >= 1);
    }
}

#[test]
fn teardown_completes_from_every_state() {
    let mut seed: u64 = 0xd1b5_4a32_d192_ed03;
    let mut next = move |bound: u64| -> u64 {
        seed ^= seed << 13;
        seed ^= seed >> 7;
        seed ^= seed << 17;
        seed % bound
    };
    for _ in 0..300 {
        let size = 1 + next(4) as usize;
        let mut pool: ThreadPool<u32> = ThreadPool::new(size);
        let mut submitted: u32 = 0;
        for _ in 0..next(60) {
            let id = next(size as u64) as usize;
            match next(8) {
                0 | 1 | 2 => {
                    if pool.execute(submitted).is_ok() {
                        submitted += 1;
                    }
                }
                3 | 4 => {
                    pool.advance(id);
                }
                5 | 6 => {
                    pool.finish(id);
                }
                _ => {
                    if next(4) == 0 {
                        pool.abort(id);
                    }
                }
            }
            check_one_receiver(&pool);
        }
        let poisoned = pool.lock() == Lock::Poisoned;
        let mut rounds = 0;
        while pool.teardown() != Teardown::Done {
            rounds += 1;
            assert!(rounds <= 2 * (submitted as usize + size) + 2);
            for id in 0..size {
                pool.finish(id);
                pool.advance(id);
                check_one_receiver(&pool);
            }
        }
        assert_eq!(pool.live_workers(), 0);
        let drained = (0..size)
            .any(|id| pool.worker(id).state == WorkerState::Terminated(Exit::EndOfStream));
        if drained {
            assert_eq!(pool.pending(), 0);
        }
        if poisoned {
            assert_eq!(pool.lock(), Lock::Poisoned);
        }
        assert_eq!(pool.execute(submitted), Err(DeliveryError(submitted)));
    }
}

#[test]
fn closures_are_work_items() {
    let record: Rc<RefCell<Vec<u32>>> = Rc::new(RefCell::new(Vec::new()));
    let mut pool: ThreadPool<Box<dyn FnOnce()>> = ThreadPool::new(1);
    for n in [1u32, 2, 3] {
        let record = Rc::clone(&record);
        assert!(pool.execute(Box::new(move || record.borrow_mut().push(n))).is_ok());
    }
    assert!(record.borrow().is_empty());
    assert_eq!(pool.teardown(), Teardown::Wait(0));
    loop {
        match pool.advance(0) {
            Action::Run(job) => {
                job();
                assert!(pool.finish(0));
            }
            Action::Wait => panic!("a closed queue never makes its only worker wait"),
            Action::Stop => break,
        }
    }
    assert_eq!(*record.borrow(), vec![1, 2, 3]);
    assert_eq!(pool.teardown(), Teardown::Done);
    let late = pool.execute(Box::new(|| {}));
    assert!(late.is_err());
}
