//! The executable pool. It stores the workers, the lock and the queue, and
//! carries the model's histories along as ghost state. Each method is one
//! transition of the model and says so in its contract.

use crate::laws::lemma_no_work_dropped;
use crate::lock::Lock;
use crate::model::{
    lemma_abort_wf, lemma_advance_wf, lemma_execute_wf, lemma_finish_wf, lemma_init_wf,
    lemma_live_count_bounds, lemma_teardown_wf, PoolView, Progress,
};
use crate::queue::{DeliveryError, WorkQueue};
use crate::worker::{Action, Worker, WorkerState};
use vstd::prelude::*;

verus! {

/// What teardown has to do next.
#[derive(Clone, Copy, Debug, PartialEq, Eq, Structural)]
pub enum Teardown {
    /// The worker with this id is the first that has not terminated: wait for
    /// it, then ask again.
    Wait(usize),
    /// Every worker has terminated.
    Done,
}

/// A pool of a fixed number of workers that take work items from one queue.
pub struct ThreadPool<T> {
    workers: Vec<Worker>,
    lock: Lock,
    queue: WorkQueue<T>,
    accepted: Ghost<Seq<T>>,
    handed: Ghost<Seq<T>>,
    progress: Ghost<Seq<Progress>>,
}

impl<T> View for ThreadPool<T> {
    type V = PoolView<T>;

    closed spec fn view(&self) -> PoolView<T> {
        PoolView {
            workers: self.workers@,
            lock: self.lock,
            queue: self.queue@,
            accepted: self.accepted@,
            handed: self.handed@,
            progress: self.progress@,
        }
    }
}

impl<T> ThreadPool<T> {
    /// The invariant of the pool: the one of its model.
    pub open spec fn wf(&self) -> bool {
        self@.wf()
    }

    /// Makes a pool of `size` workers. Every worker is started at once and
    /// wants the lock.
    pub fn new(size: usize) -> (pool: Self)
        requires
            size > 0,
        ensures
            pool.wf(),
            pool@ == PoolView::<T>::init(size as nat),
            pool@.size() == size,
            pool@.live() == size,
    {
        let mut workers: Vec<Worker> = Vec::new();
        let mut id: usize = 0;
        while id < size
            invariant
                id <= size,
                workers@.len() == id,
                forall|i: int|
                    0 <= i < id ==> (#[trigger] workers@[i]) == (Worker {
                        id: i as usize,
                        state: WorkerState::Idle,
                    }),
            decreases size - id,
        {
            workers.push(Worker::new(id));
            id = id + 1;
        }
        let pool = ThreadPool {
            workers,
            lock: Lock::Free,
            queue: WorkQueue::new(size),
            accepted: Ghost(Seq::empty()),
            handed: Ghost(Seq::empty()),
            progress: Ghost(Seq::empty()),
        };
        proof {
            lemma_init_wf::<T>(size as nat);
            assert(pool@.workers =~= PoolView::<T>::init(size as nat).workers);
        }
        pool
    }

    /// Submits `item`. It is appended to the queue, to be run by whichever
    /// worker takes it. Once teardown has begun, or when no worker is live,
    /// the item comes back as a delivery error and the pool stays as it was.
    pub fn execute(&mut self, item: T) -> (sent: Result<(), DeliveryError<T>>)
        requires
            old(self).wf(),
        ensures
            final(self).wf(),
            final(self)@ == old(self)@.execute(item),
            old(self)@.queue.accepts() ==> sent == Ok::<(), DeliveryError<T>>(()),
            !old(self)@.queue.accepts() ==> sent == Err::<(), DeliveryError<T>>(
                DeliveryError(item),
            ),
    {
        let ghost before = self@;
        let sent = self.queue.send(item);
        self.accepted = Ghost(before.execute(item).accepted);
        proof {
            lemma_execute_wf(before, item);
        }
        sent
    }

    /// One pass of the worker `id` through its loop body: an idle worker asks
    /// for the lock, and one that has it takes the oldest pending item, or
    /// terminates at the end of the stream. The action says what the worker's
    /// thread has to do.
    pub fn advance(&mut self, id: usize) -> (action: Action<T>)
        requires
            old(self).wf(),
            old(self)@.has(id),
        ensures
            final(self).wf(),
            final(self)@ == old(self)@.advance(id),
            action == old(self)@.step_of(id).action,
    {
        let ghost before = self@;
        let mut worker = self.workers[id];
        let action = worker.step(&mut self.lock, &mut self.queue);
        self.workers.set(id, worker);
        self.handed = Ghost(before.advance(id).handed);
        self.progress = Ghost(before.advance(id).progress);
        proof {
            lemma_advance_wf(before, id);
        }
        action
    }

    /// Reports that the item the worker `id` was running has come to its end.
    /// The worker is idle again, and the item is completed. Says whether the
    /// worker was running one; if not, nothing changes.
    pub fn finish(&mut self, id: usize) -> (was_executing: bool)
        requires
            old(self).wf(),
            old(self)@.has(id),
        ensures
            final(self).wf(),
            final(self)@ == old(self)@.finish(id),
            was_executing == (old(self)@.workers[id as int].state is Executing),
    {
        let ghost before = self@;
        let mut worker = self.workers[id];
        let was_executing = worker.finish();
        self.workers.set(id, worker);
        self.progress = Ghost(before.finish(id).progress);
        proof {
            lemma_finish_wf(before, id);
            assert(self@.workers =~= before.finish(id).workers);
        }
        was_executing
    }

    /// Reports that the thread of the worker `id` was aborted. The worker
    /// terminates; the item it was running has failed; if it held the lock,
    /// the lock is poisoned. Says whether the worker was live; if not, nothing
    /// changes.
    pub fn abort(&mut self, id: usize) -> (was_live: bool)
        requires
            old(self).wf(),
            old(self)@.has(id),
        ensures
            final(self).wf(),
            final(self)@ == old(self)@.abort(id),
            was_live == old(self)@.workers[id as int].live(),
    {
        let ghost before = self@;
        let mut worker = self.workers[id];
        let was_live = worker.abort(&mut self.lock, &mut self.queue);
        self.workers.set(id, worker);
        self.progress = Ghost(before.abort(id).progress);
        proof {
            lemma_abort_wf(before, id);
            assert(self@.workers =~= before.abort(id).workers);
        }
        was_live
    }

    /// The number of workers, fixed when the pool was made.
    pub fn size(&self) -> (n: usize)
        ensures
            n == self@.size(),
    {
        self.workers.len()
    }

    /// The number of workers that have not terminated.
    pub fn live_workers(&self) -> (n: usize)
        requires
            self.wf(),
        ensures
            n == self@.live(),
            n <= self@.size(),
            n == 0 <==> self@.all_terminated(),
    {
        proof {
            lemma_live_count_bounds(self@.workers);
        }
        self.queue.receivers()
    }

    /// The worker `id` as it is now.
    pub fn worker(&self, id: usize) -> (worker: Worker)
        requires
            self@.has(id),
        ensures
            worker == self@.workers[id as int],
    {
        self.workers[id]
    }

    /// The state of the lock on the queue's receiving end.
    pub fn lock(&self) -> (lock: Lock)
        ensures
            lock == self@.lock,
    {
        self.lock
    }

    /// The number of items that were accepted and not yet handed to a worker.
    pub fn pending(&self) -> (n: usize)
        ensures
            n == self@.queue.pending.len(),
    {
        self.queue.len()
    }

    /// Whether teardown has begun.
    pub fn is_closed(&self) -> (closed: bool)
        ensures
            closed == self@.queue.closed,
    {
        self.queue.is_closed()
    }

    /// The first worker, by id, that has not terminated.
    fn first_live(&self) -> (first: Option<usize>)
        ensures
            first is None <==> self@.all_terminated(),
            first matches Some(id) ==> self@.first_live(id),
    {
        let mut id: usize = 0;
        while id < self.workers.len()
            invariant
                id <= self.workers@.len(),
                forall|i: int| 0 <= i < id ==> !(#[trigger] self.workers@[i]).live(),
            decreases self.workers@.len() - id,
        {
            match self.workers[id].state {
                WorkerState::Terminated(_) => {},
                _ => {
                    assert(self@.workers[id as int].live());
                    return Some(id);
                },
            }
            id = id + 1;
        }
        None
    }

    /// Begins teardown, or goes on with it: closes the queue, then names the
    /// first worker that has not terminated, or says that all have. When all
    /// have, and one of them because it saw the end of the stream, no work was
    /// dropped: all that was accepted has come to an end.
    pub fn teardown(&mut self) -> (step: Teardown)
        requires
            old(self).wf(),
        ensures
            final(self).wf(),
            final(self)@ == old(self)@.teardown(),
            step is Done <==> old(self)@.all_terminated(),
            step matches Teardown::Wait(id) ==> old(self)@.first_live(id),
            step is Done && old(self)@.drained() ==> final(self)@.settled(),
    {
        let ghost before = self@;
        self.queue.close();
        proof {
            lemma_teardown_wf(before);
            if before.all_terminated() && before.drained() {
                lemma_no_work_dropped(before.teardown());
            }
        }
        match self.first_live() {
            Some(id) => Teardown::Wait(id),
            None => Teardown::Done,
        }
    }
}

} // verus!
