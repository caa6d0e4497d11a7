//! One worker: its id, where it is in its loop, and the body of that loop as
//! a function from what the worker finds to what it does next.
//!
//! A worker is `Idle` while it wants the lock, `Waiting` while it holds the
//! lock and looks for an item, `Executing` while it runs one with the lock
//! given back, and `Terminated` for good once it has seen the end of the
//! stream, found the lock poisoned, or been aborted.

use crate::lock::{Acquired, Lock};
use crate::queue::{QueueView, Received, WorkQueue};
use vstd::prelude::*;

verus! {

/// Why a worker terminated.
#[derive(Clone, Copy, Debug, PartialEq, Eq, Structural)]
pub enum Exit {
    /// It found the queue closed with nothing pending.
    EndOfStream,
    /// It asked for the lock and found it poisoned.
    LockPoisoned,
    /// Its thread was aborted, by the item it was running or otherwise.
    Aborted,
}

/// Where a worker is in its loop.
#[derive(Clone, Copy, Debug, PartialEq, Eq, Structural)]
pub enum WorkerState {
    /// It wants the lock.
    Idle,
    /// It holds the lock and looks for an item.
    Waiting,
    /// It runs an item and holds no lock.
    Executing,
    /// Its loop has ended.
    Terminated(Exit),
}

/// What a worker's thread has to do after one pass through the loop body.
#[derive(Debug, PartialEq, Eq)]
pub enum Action<T> {
    /// Run this item, then report its end.
    Run(T),
    /// Nothing can be done now: come back when the pool has changed.
    Wait,
    /// The worker has terminated: leave the loop.
    Stop,
}

/// A worker of the pool.
#[derive(Clone, Copy, Debug, PartialEq, Eq, Structural)]
pub struct Worker {
    /// Its position in the pool.
    pub id: usize,
    /// Where it is in its loop.
    pub state: WorkerState,
}

/// A worker, the lock and the queue after one pass through the loop body, and
/// the action that the pass ends with.
pub struct Step<T> {
    /// The worker after the pass.
    pub worker: Worker,
    /// The lock after the pass.
    pub lock: Lock,
    /// The queue after the pass.
    pub queue: QueueView<T>,
    /// What the worker's thread has to do next.
    pub action: Action<T>,
}

impl Worker {
    /// Whether the worker's loop is still going.
    pub open spec fn live(self) -> bool {
        !(self.state is Terminated)
    }

    /// Whether worker and lock agree: the worker is waiting exactly when it is
    /// the one who holds the lock.
    pub open spec fn agrees_with(self, lock: Lock) -> bool {
        self.state is Waiting <==> lock == Lock::Held(self.id)
    }

    /// The worker in `state`.
    pub open spec fn moved_to(self, state: WorkerState) -> Worker {
        Worker { id: self.id, state }
    }

    /// What a worker that holds the lock does with the queue: it takes the
    /// oldest item and gives the lock back before it runs the item; at the end
    /// of the stream it gives the lock and its endpoint back and terminates;
    /// with nothing pending in an open queue it stays where it is.
    pub open spec fn receive_spec<T>(self, queue: QueueView<T>) -> Step<T> {
        if queue.pending.len() > 0 {
            Step {
                worker: self.moved_to(WorkerState::Executing),
                lock: Lock::Free,
                queue: queue.receive(),
                action: Action::Run(queue.pending[0]),
            }
        } else if queue.closed {
            Step {
                worker: self.moved_to(WorkerState::Terminated(Exit::EndOfStream)),
                lock: Lock::Free,
                queue: queue.detach(),
                action: Action::Stop,
            }
        } else {
            Step {
                worker: self.moved_to(WorkerState::Waiting),
                lock: Lock::Held(self.id),
                queue,
                action: Action::Wait,
            }
        }
    }

    /// One pass through the loop body, as a function.
    pub open spec fn step_spec<T>(self, lock: Lock, queue: QueueView<T>) -> Step<T> {
        match self.state {
            WorkerState::Terminated(_) => Step { worker: self, lock, queue, action: Action::Stop },
            WorkerState::Executing => Step { worker: self, lock, queue, action: Action::Wait },
            WorkerState::Waiting => self.receive_spec(queue),
            WorkerState::Idle => match lock {
                Lock::Free => self.receive_spec(queue),
                Lock::Held(_) => Step { worker: self, lock, queue, action: Action::Wait },
                Lock::Poisoned => Step {
                    worker: self.moved_to(WorkerState::Terminated(Exit::LockPoisoned)),
                    lock,
                    queue: queue.detach(),
                    action: Action::Stop,
                },
            },
        }
    }

    /// The worker after the item it was running came to its end.
    pub open spec fn finish_spec(self) -> Worker {
        if self.state is Executing {
            self.moved_to(WorkerState::Idle)
        } else {
            self
        }
    }

    /// The worker after its thread was aborted.
    pub open spec fn abort_spec(self) -> Worker {
        if self.live() {
            self.moved_to(WorkerState::Terminated(Exit::Aborted))
        } else {
            self
        }
    }

    /// A worker that has just been started: it wants the lock.
    pub fn new(id: usize) -> (worker: Worker)
        ensures
            worker == (Worker { id, state: WorkerState::Idle }),
    {
        Worker { id, state: WorkerState::Idle }
    }

    /// One pass through the loop body. An idle worker asks for the lock; one
    /// that has it looks for an item. It never blocks: where a thread would,
    /// the action is `Wait` and the worker stays as it is.
    pub fn step<T>(&mut self, lock: &mut Lock, queue: &mut WorkQueue<T>) -> (action: Action<T>)
        requires
            old(self).agrees_with(*old(lock)),
        ensures
            (Step { worker: *final(self), lock: *final(lock), queue: final(queue)@, action })
                == old(self).step_spec(*old(lock), old(queue)@),
    {
        match self.state {
            WorkerState::Terminated(_) => {
                return Action::Stop;
            },
            WorkerState::Executing => {
                return Action::Wait;
            },
            WorkerState::Waiting => {},
            WorkerState::Idle => match lock.acquire(self.id) {
                Acquired::Granted => {
                    self.state = WorkerState::Waiting;
                },
                Acquired::Busy => {
                    return Action::Wait;
                },
                Acquired::Poisoned => {
                    self.state = WorkerState::Terminated(Exit::LockPoisoned);
                    queue.detach();
                    return Action::Stop;
                },
            },
        }
        match queue.receive() {
            Received::Item(item) => {
                lock.release(self.id);
                self.state = WorkerState::Executing;
                Action::Run(item)
            },
            Received::EndOfStream => {
                lock.release(self.id);
                self.state = WorkerState::Terminated(Exit::EndOfStream);
                queue.detach();
                Action::Stop
            },
            Received::Empty => Action::Wait,
        }
    }

    /// Reports that the item the worker was running has come to its end: the
    /// worker is idle again. Says whether the worker was running one.
    pub fn finish(&mut self) -> (was_executing: bool)
        ensures
            *final(self) == old(self).finish_spec(),
            was_executing == (old(self).state is Executing),
    {
        match self.state {
            WorkerState::Executing => {
                self.state = WorkerState::Idle;
                true
            },
            _ => false,
        }
    }

    /// Reports that the worker's thread was aborted. The worker terminates and
    /// gives its endpoint back; if it held the lock, the lock is poisoned. Says
    /// whether the worker was still live.
    pub fn abort<T>(&mut self, lock: &mut Lock, queue: &mut WorkQueue<T>) -> (was_live: bool)
        ensures
            *final(self) == old(self).abort_spec(),
            was_live == old(self).live(),
            *final(lock) == (if old(self).live() {
                old(lock).poison_spec(old(self).id)
            } else {
                *old(lock)
            }),
            final(queue)@ == (if old(self).live() {
                old(queue)@.detach()
            } else {
                old(queue)@
            }),
    {
        match self.state {
            WorkerState::Terminated(_) => false,
            _ => {
                lock.poison(self.id);
                self.state = WorkerState::Terminated(Exit::Aborted);
                queue.detach();
                true
            },
        }
    }
}

} // verus!
