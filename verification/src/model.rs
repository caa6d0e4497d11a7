//! The pool as a mathematical value, the transitions that change it, and the
//! invariant that every transition keeps.
//!
//! Besides what the executable pool stores, the model keeps three histories:
//! the items that were accepted, the items that were handed to a worker, each
//! in the order in which that happened, and for every item handed out, how far
//! its execution has got.

use crate::lock::Lock;
use crate::queue::QueueView;
use crate::worker::{Action, Exit, Step, Worker, WorkerState};
use vstd::prelude::*;

verus! {

/// Which worker took an item, and how far the execution of the item has got.
pub enum Progress {
    /// The worker with this id is running it.
    Running(int),
    /// The worker with this id ran it to its end.
    Completed(int),
    /// It aborted the worker with this id.
    Failed(int),
}

impl Progress {
    /// The id of the worker that took the item.
    pub open spec fn worker(self) -> int {
        match self {
            Progress::Running(id) => id,
            Progress::Completed(id) => id,
            Progress::Failed(id) => id,
        }
    }
}

/// One transition of the pool.
pub enum Op<T> {
    /// An item is submitted.
    Execute(T),
    /// The worker with this id makes one pass through its loop body.
    Advance(usize),
    /// The worker with this id reports the end of its item.
    Finish(usize),
    /// The thread of the worker with this id is aborted.
    Abort(usize),
    /// Teardown begins, or goes on.
    Teardown,
}

/// The pool as a mathematical value.
pub struct PoolView<T> {
    /// The workers, by id.
    pub workers: Seq<Worker>,
    /// The lock on the queue's receiving end.
    pub lock: Lock,
    /// The work queue.
    pub queue: QueueView<T>,
    /// Every item that a submission was accepted for, oldest first.
    pub accepted: Seq<T>,
    /// Every item that was handed to a worker, in the order of the hand-offs.
    pub handed: Seq<T>,
    /// For each item of `handed`, how far its execution has got.
    pub progress: Seq<Progress>,
}

/// The number of workers in `workers` whose loop is still going.
pub open spec fn live_count(workers: Seq<Worker>) -> nat
    decreases workers.len(),
{
    if workers.len() == 0 {
        0
    } else {
        live_count(workers.drop_last()) + if workers.last().live() {
            1nat
        } else {
            0nat
        }
    }
}

/// Whether `progress` marks some item as running on the worker `id`.
pub open spec fn runs_on(progress: Seq<Progress>, id: int) -> bool {
    exists|k: int| 0 <= k < progress.len() && #[trigger] progress[k] == Progress::Running(id)
}

/// `progress` after whatever the worker `id` was running got `outcome`.
pub open spec fn settle(progress: Seq<Progress>, id: usize, outcome: Progress) -> Seq<Progress> {
    Seq::new(
        progress.len(),
        |k: int|
            if progress[k] == Progress::Running(id as int) {
                outcome
            } else {
                progress[k]
            },
    )
}

impl<T> PoolView<T> {
    /// A pool of `size` workers that has just been made: every worker is idle,
    /// the lock is free, the queue is open and empty, nothing has happened yet.
    pub open spec fn init(size: nat) -> Self {
        PoolView {
            workers: Seq::new(size, |i: int| Worker { id: i as usize, state: WorkerState::Idle }),
            lock: Lock::Free,
            queue: QueueView::fresh(size),
            accepted: Seq::empty(),
            handed: Seq::empty(),
            progress: Seq::empty(),
        }
    }

    /// The number of workers, live or not.
    pub open spec fn size(self) -> nat {
        self.workers.len()
    }

    /// Whether `id` is the id of a worker of this pool.
    pub open spec fn has(self, id: usize) -> bool {
        id < self.workers.len()
    }

    /// The number of workers whose loop is still going.
    pub open spec fn live(self) -> nat {
        live_count(self.workers)
    }

    /// Whether every worker has terminated.
    pub open spec fn all_terminated(self) -> bool {
        forall|i: int| 0 <= i < self.workers.len() ==> !(#[trigger] self.workers[i]).live()
    }

    /// Whether the worker `id` is the first, by id, that has not terminated.
    pub open spec fn first_live(self, id: usize) -> bool {
        &&& self.has(id)
        &&& self.workers[id as int].live()
        &&& forall|i: int| 0 <= i < id ==> !(#[trigger] self.workers[i]).live()
    }

    /// Whether some worker terminated because it saw the end of the stream.
    pub open spec fn drained(self) -> bool {
        exists|i: int|
            0 <= i < self.workers.len() && (#[trigger] self.workers[i]).state
                == WorkerState::Terminated(Exit::EndOfStream)
    }

    /// Whether all the work that was accepted has come to an end: nothing is
    /// pending, every accepted item was handed to a worker, in the order of
    /// acceptance, and none is running any more.
    pub open spec fn settled(self) -> bool {
        &&& self.queue.pending.len() == 0
        &&& self.handed == self.accepted
        &&& self.progress.len() == self.accepted.len()
        &&& forall|k: int|
            0 <= k < self.progress.len() ==> !((#[trigger] self.progress[k]) is Running)
    }

    /// The pool after `item` was submitted: the item is appended to the queue
    /// and to the accepted items, if the queue takes it.
    pub open spec fn execute(self, item: T) -> Self {
        if self.queue.accepts() {
            PoolView {
                queue: self.queue.send(item),
                accepted: self.accepted.push(item),
                ..self
            }
        } else {
            self
        }
    }

    /// What one pass through the loop body does for the worker `id`.
    pub open spec fn step_of(self, id: usize) -> Step<T> {
        self.workers[id as int].step_spec(self.lock, self.queue)
    }

    /// The pool after the worker `id` made one pass through its loop body. An
    /// item that the worker took is recorded as handed out and running.
    pub open spec fn advance(self, id: usize) -> Self {
        let step = self.step_of(id);
        PoolView {
            workers: self.workers.update(id as int, step.worker),
            lock: step.lock,
            queue: step.queue,
            accepted: self.accepted,
            handed: match step.action {
                Action::Run(item) => self.handed.push(item),
                _ => self.handed,
            },
            progress: match step.action {
                Action::Run(_) => self.progress.push(Progress::Running(id as int)),
                _ => self.progress,
            },
        }
    }

    /// The pool after the worker `id` reported the end of its item.
    pub open spec fn finish(self, id: usize) -> Self {
        if self.workers[id as int].state is Executing {
            PoolView {
                workers: self.workers.update(id as int, self.workers[id as int].finish_spec()),
                progress: settle(self.progress, id, Progress::Completed(id as int)),
                ..self
            }
        } else {
            self
        }
    }

    /// The pool after the thread of the worker `id` was aborted. The item it
    /// was running, if any, has failed; a lock it held is poisoned.
    pub open spec fn abort(self, id: usize) -> Self {
        if self.workers[id as int].live() {
            PoolView {
                workers: self.workers.update(id as int, self.workers[id as int].abort_spec()),
                lock: self.lock.poison_spec(id),
                queue: self.queue.detach(),
                progress: settle(self.progress, id, Progress::Failed(id as int)),
                ..self
            }
        } else {
            self
        }
    }

    /// The pool after teardown began: the queue is closed.
    pub open spec fn teardown(self) -> Self {
        PoolView { queue: self.queue.close(), ..self }
    }

    /// Whether `op` names a worker of this pool, where it names one.
    pub open spec fn admits(self, op: Op<T>) -> bool {
        match op {
            Op::Execute(_) => true,
            Op::Advance(id) => self.has(id),
            Op::Finish(id) => self.has(id),
            Op::Abort(id) => self.has(id),
            Op::Teardown => true,
        }
    }

    /// The pool after `op`.
    pub open spec fn next(self, op: Op<T>) -> Self {
        match op {
            Op::Execute(item) => self.execute(item),
            Op::Advance(id) => self.advance(id),
            Op::Finish(id) => self.finish(id),
            Op::Abort(id) => self.abort(id),
            Op::Teardown => self.teardown(),
        }
    }

    /// The pool after the transitions `ops`, one after the other.
    pub open spec fn run(self, ops: Seq<Op<T>>) -> Self
        decreases ops.len(),
    {
        if ops.len() == 0 {
            self
        } else {
            self.run(ops.drop_last()).next(ops.last())
        }
    }

    /// Whether each of `ops` names a worker of this pool, where it names one.
    pub open spec fn admits_all(self, ops: Seq<Op<T>>) -> bool {
        forall|i: int| 0 <= i < ops.len() ==> self.admits(#[trigger] ops[i])
    }

    /// Every worker carries its position as its id.
    pub open spec fn ids_in_order(self) -> bool {
        forall|i: int| 0 <= i < self.workers.len() ==> (#[trigger] self.workers[i]).id == i
    }

    /// A worker is waiting exactly when it holds the lock, and whoever holds
    /// the lock is a worker of this pool.
    pub open spec fn lock_agrees(self) -> bool {
        &&& forall|i: int|
            0 <= i < self.workers.len() ==> (#[trigger] self.workers[i]).agrees_with(self.lock)
        &&& self.lock matches Lock::Held(holder) ==> holder < self.workers.len()
    }

    /// Every item that was handed out was taken by a worker of this pool. An
    /// item is marked as running on a worker exactly when that worker is
    /// executing, and a worker that runs an item has taken none after it.
    pub open spec fn progress_agrees(self) -> bool {
        &&& self.progress.len() == self.handed.len()
        &&& forall|k: int|
            0 <= k < self.progress.len() ==> 0 <= (#[trigger] self.progress[k]).worker()
                < self.workers.len()
        &&& forall|k: int, w: int|
            0 <= k < self.progress.len() && #[trigger] self.progress[k] == Progress::Running(w)
                ==> (#[trigger] self.workers[w]).state is Executing
        &&& forall|j: int, k: int|
            0 <= j < k < self.progress.len() && (#[trigger] self.progress[j]) is Running
                ==> (#[trigger] self.progress[k]).worker() != self.progress[j].worker()
        &&& forall|i: int|
            0 <= i < self.workers.len() && (#[trigger] self.workers[i]).state is Executing
                ==> runs_on(self.progress, i)
    }

    /// The invariant of the pool.
    pub open spec fn wf(self) -> bool {
        &&& 0 < self.workers.len() <= usize::MAX
        &&& self.ids_in_order()
        &&& self.lock_agrees()
        &&& self.queue.receivers == live_count(self.workers)
        &&& self.accepted == self.handed + self.queue.pending
        &&& self.progress_agrees()
        &&& self.drained() ==> self.queue.at_end()
    }
}

/// No more workers are live than there are, and none is live exactly when
/// every one has terminated.
pub proof fn lemma_live_count_bounds(workers: Seq<Worker>)
    ensures
        live_count(workers) <= workers.len(),
        live_count(workers) == 0 <==> forall|i: int|
            0 <= i < workers.len() ==> !(#[trigger] workers[i]).live(),
        (forall|i: int| 0 <= i < workers.len() ==> (#[trigger] workers[i]).live()) ==> live_count(
            workers,
        ) == workers.len(),
    decreases workers.len(),
{
    if workers.len() > 0 {
        let front = workers.drop_last();
        lemma_live_count_bounds(front);
        if live_count(workers) == 0 {
            assert forall|i: int| 0 <= i < workers.len() implies !(
            #[trigger] workers[i]).live() by {
                if i < front.len() {
                    assert(!front[i].live());
                }
            }
        }
    }
}

/// Replacing one worker changes the number of live workers by what that
/// worker's own liveness changed.
pub proof fn lemma_live_count_update(workers: Seq<Worker>, i: int, worker: Worker)
    requires
        0 <= i < workers.len(),
    ensures
        live_count(workers.update(i, worker)) + (if workers[i].live() {
            1nat
        } else {
            0nat
        }) == live_count(workers) + (if worker.live() {
            1nat
        } else {
            0nat
        }),
    decreases workers.len(),
{
    let changed = workers.update(i, worker);
    if i == workers.len() - 1 {
        assert(changed.drop_last() =~= workers.drop_last());
    } else {
        lemma_live_count_update(workers.drop_last(), i, worker);
        assert(changed.drop_last() =~= workers.drop_last().update(i, worker));
    }
}

/// An item that is marked as running on the worker `id` stays so marked when
/// the marks are extended, or changed at other items only.
proof fn lemma_keeps_running(before: Seq<Progress>, after: Seq<Progress>, id: int)
    requires
        runs_on(before, id),
        before.len() <= after.len(),
        forall|k: int|
            0 <= k < before.len() && #[trigger] before[k] == Progress::Running(id) ==> after[k]
                == before[k],
    ensures
        runs_on(after, id),
{
    let k = choose|k: int| 0 <= k < before.len() && #[trigger] before[k] == Progress::Running(id);
    assert(after[k] == Progress::Running(id));
}

/// A pool that has just been made meets the invariant, and all its workers are
/// live.
pub proof fn lemma_init_wf<T>(size: nat)
    requires
        0 < size <= usize::MAX,
    ensures
        PoolView::<T>::init(size).wf(),
        PoolView::<T>::init(size).live() == size,
{
    let pool = PoolView::<T>::init(size);
    lemma_live_count_bounds(pool.workers);
}

/// A submission keeps the invariant.
pub proof fn lemma_execute_wf<T>(pool: PoolView<T>, item: T)
    requires
        pool.wf(),
    ensures
        pool.execute(item).wf(),
{
}

/// A pass of a worker through its loop body keeps the invariant.
pub proof fn lemma_advance_wf<T>(pool: PoolView<T>, id: usize)
    requires
        pool.wf(),
        pool.has(id),
    ensures
        pool.advance(id).wf(),
{
    let after = pool.advance(id);
    let step = pool.step_of(id);
    let worker = pool.workers[id as int];
    lemma_live_count_update(pool.workers, id as int, step.worker);
    if step.worker == worker {
        assert(after.workers =~= pool.workers);
    }
    assert(after.accepted =~= after.handed + after.queue.pending);
    assert forall|i: int|
        0 <= i < after.workers.len() && (
        #[trigger] after.workers[i]).state is Executing implies runs_on(after.progress, i) by {
        if i == id && step.action is Run {
            assert(after.progress[pool.progress.len() as int] == Progress::Running(id as int));
        } else {
            assert(pool.workers[i].state is Executing);
            lemma_keeps_running(pool.progress, after.progress, i);
        }
    }
}

/// The end of an item keeps the invariant.
pub proof fn lemma_finish_wf<T>(pool: PoolView<T>, id: usize)
    requires
        pool.wf(),
        pool.has(id),
    ensures
        pool.finish(id).wf(),
{
    let after = pool.finish(id);
    let worker = pool.workers[id as int];
    lemma_live_count_update(pool.workers, id as int, worker.finish_spec());
    assert forall|i: int|
        0 <= i < after.workers.len() && (
        #[trigger] after.workers[i]).state is Executing implies runs_on(after.progress, i) by {
        assert(pool.workers[i].state is Executing);
        lemma_keeps_running(pool.progress, after.progress, i);
    }
}

/// The abort of a worker keeps the invariant.
pub proof fn lemma_abort_wf<T>(pool: PoolView<T>, id: usize)
    requires
        pool.wf(),
        pool.has(id),
    ensures
        pool.abort(id).wf(),
{
    let after = pool.abort(id);
    let worker = pool.workers[id as int];
    lemma_live_count_update(pool.workers, id as int, worker.abort_spec());
    assert forall|i: int|
        0 <= i < after.workers.len() && (
        #[trigger] after.workers[i]).state is Executing implies runs_on(after.progress, i) by {
        assert(pool.workers[i].state is Executing);
        lemma_keeps_running(pool.progress, after.progress, i);
    }
}

/// The start of teardown keeps the invariant.
pub proof fn lemma_teardown_wf<T>(pool: PoolView<T>)
    requires
        pool.wf(),
    ensures
        pool.teardown().wf(),
{
}

} // verus!
