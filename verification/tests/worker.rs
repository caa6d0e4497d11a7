use mini_server::lock::Lock;
use mini_server::queue::WorkQueue;
use mini_server::worker::{Action, Exit, Worker, WorkerState};

#[test]
fn new_worker_is_idle() {
    let worker = Worker::new(5);
    assert_eq!(worker.id, 5);
    assert_eq!(worker.state, WorkerState::Idle);
}

#[test]
fn idle_worker_takes_the_lock_and_waits_on_an_empty_queue() {
    let mut worker = Worker::new(0);
    let mut lock = Lock::Free;
    let mut queue: WorkQueue<u32> = WorkQueue::new(1);
    assert_eq!(worker.step(&mut lock, &mut queue), Action::Wait);
    assert_eq!(worker.state, WorkerState::Waiting);
    assert_eq!(lock, Lock::Held(0));
    assert_eq!(worker.step(&mut lock, &mut queue), Action::Wait);
    assert_eq!(worker.state, WorkerState::Waiting);
    assert_eq!(lock, Lock::Held(0));
}

#[test]
fn idle_worker_stays_idle_while_another_holds_the_lock() {
    let mut worker = Worker::new(1);
    let mut lock = Lock::Held(0);
    let mut queue: WorkQueue<u32> = WorkQueue::new(2);
    assert_eq!(queue.send(9), Ok(()));
    assert_eq!(worker.step(&mut lock, &mut queue), Action::Wait);
    assert_eq!(worker.state, WorkerState::Idle);
    assert_eq!(lock, Lock::Held(0));
    assert_eq!(queue.len(), 1);
}

#[test]
fn worker_releases_the_lock_before_it_runs_the_item() {
    let mut worker = Worker::new(0);
    let mut lock = Lock::Free;
    let mut queue: WorkQueue<u32> = WorkQueue::new(1);
    assert_eq!(queue.send(7), Ok(()));
    assert_eq!(queue.send(8), Ok(()));
    assert_eq!(worker.step(&mut lock, &mut queue), Action::Run(7));
    assert_eq!(worker.state, WorkerState::Executing);
    assert_eq!(lock, Lock::Free);
    assert_eq!(queue.len(), 1);
}

#[test]
fn executing_worker_takes_nothing() {
    let mut worker = Worker::new(0);
    let mut lock = Lock::Free;
    let mut queue: WorkQueue<u32> = WorkQueue::new(1);
    assert_eq!(queue.send(7), Ok(()));
    assert_eq!(queue.send(8), Ok(()));
    assert_eq!(worker.step(&mut lock, &mut queue), Action::Run(7));
    assert_eq!(worker.step(&mut lock, &mut queue), Action::Wait);
    assert_eq!(worker.state, WorkerState::Executing);
    assert_eq!(queue.len(), 1);
    assert!(worker.finish());
    assert_eq!(worker.state, WorkerState::Idle);
    assert_eq!(worker.step(&mut lock, &mut queue), Action::Run(8));
}

#[test]
fn finish_changes_only_an_executing_worker() {
    let mut worker = Worker::new(0);
    assert!(!worker.finish());
    assert_eq!(worker.state, WorkerState::Idle);
    let mut waiting = Worker { id: 1, state: WorkerState::Waiting };
    assert!(!waiting.finish());
    assert_eq!(waiting.state, WorkerState::Waiting);
    let mut ended = Worker { id: 2, state: WorkerState::Terminated(Exit::EndOfStream) };
    assert!(!ended.finish());
    assert_eq!(ended.state, WorkerState::Terminated(Exit::EndOfStream));
}

#[test]
fn waiting_worker_terminates_at_the_end_of_the_stream() {
    let mut worker = Worker::new(0);
    let mut lock = Lock::Free;
    let mut queue: WorkQueue<u32> = WorkQueue::new(1);
    assert_eq!(worker.step(&mut lock, &mut queue), Action::Wait);
    queue.close();
    assert_eq!(worker.step(&mut lock, &mut queue), Action::Stop);
    assert_eq!(worker.state, WorkerState::Terminated(Exit::EndOfStream));
    assert_eq!(lock, Lock::Free);
    assert_eq!(queue.receivers(), 0);
    assert_eq!(worker.step(&mut lock, &mut queue), Action::Stop);
    assert_eq!(worker.state, WorkerState::Terminated(Exit::EndOfStream));
    assert_eq!(queue.receivers(), 0);
}

#[test]
fn worker_drains_a_closed_queue_before_it_terminates() {
    let mut worker = Worker::new(0);
    let mut lock = Lock::Free;
    let mut queue: WorkQueue<u32> = WorkQueue::new(1);
    assert_eq!(queue.send(1), Ok(()));
    queue.close();
    assert_eq!(worker.step(&mut lock, &mut queue), Action::Run(1));
    assert!(worker.finish());
    assert_eq!(worker.step(&mut lock, &mut queue), Action::Stop);
    assert_eq!(worker.state, WorkerState::Terminated(Exit::EndOfStream));
}

#[test]
fn poisoned_lock_terminates_the_worker_that_asks_for_it() {
    let mut worker = Worker::new(1);
    let mut lock = Lock::Poisoned;
    let mut queue: WorkQueue<u32> = WorkQueue::new(2);
    assert_eq!(queue.send(3), Ok(()));
    assert_eq!(worker.step(&mut lock, &mut queue), Action::Stop);
    assert_eq!(worker.state, WorkerState::Terminated(Exit::LockPoisoned));
    assert_eq!(lock, Lock::Poisoned);
    assert_eq!(queue.len(), 1);
    assert_eq!(queue.receivers(), 1);
}

#[test]
fn abort_while_executing_leaves_the_lock_alone() {
    let mut worker = Worker::new(0);
    let mut lock = Lock::Free;
    let mut queue: WorkQueue<u32> = WorkQueue::new(2);
    assert_eq!(queue.send(3), Ok(()));
    assert_eq!(worker.step(&mut lock, &mut queue), Action::Run(3));
    assert!(worker.abort(&mut lock, &mut queue));
    assert_eq!(worker.state, WorkerState::Terminated(Exit::Aborted));
    assert_eq!(lock, Lock::Free);
    assert_eq!(queue.receivers(), 1);
    assert!(!worker.abort(&mut lock, &mut queue));
    assert_eq!(queue.receivers(), 1);
}

#[test]
fn abort_while_waiting_poisons_the_lock() {
    let mut worker = Worker::new(0);
    let mut lock = Lock::Free;
    let mut queue: WorkQueue<u32> = WorkQueue::new(2);
    assert_eq!(worker.step(&mut lock, &mut queue), Action::Wait);
    assert_eq!(lock, Lock::Held(0));
    assert!(worker.abort(&mut lock, &mut queue));
    assert_eq!(worker.state, WorkerState::Terminated(Exit::Aborted));
    assert_eq!(lock, Lock::Poisoned);
    assert_eq!(queue.receivers(), 1);
}
