//! What holds of a pool in every state that the transitions can reach, and of
//! every single transition. Each law is stated over the model and proved from
//! the invariant, which a new pool meets and every transition keeps.

use crate::lock::Lock;
use crate::model::{
    lemma_abort_wf, lemma_advance_wf, lemma_execute_wf, lemma_finish_wf, lemma_init_wf,
    lemma_live_count_bounds, lemma_teardown_wf, Op, PoolView, Progress,
};
use crate::worker::{Worker, WorkerState};
use vstd::prelude::*;

verus! {

/// A new pool of `size` workers has exactly `size` workers, all of them live
/// and idle, and has accepted nothing yet.
pub proof fn lemma_new_pool<T>(size: nat)
    requires
        0 < size <= usize::MAX,
    ensures
        PoolView::<T>::init(size).wf(),
        PoolView::<T>::init(size).size() == size,
        PoolView::<T>::init(size).live() == size,
        forall|i: int|
            0 <= i < size ==> (#[trigger] PoolView::<T>::init(size).workers[i]) == (Worker {
                id: i as usize,
                state: WorkerState::Idle,
            }),
        PoolView::<T>::init(size).accepted.len() == 0,
        PoolView::<T>::init(size).queue.accepts(),
{
    lemma_init_wf::<T>(size);
}

/// Every transition keeps the invariant.
pub proof fn lemma_next_wf<T>(pool: PoolView<T>, op: Op<T>)
    requires
        pool.wf(),
        pool.admits(op),
    ensures
        pool.next(op).wf(),
{
    match op {
        Op::Execute(item) => lemma_execute_wf(pool, item),
        Op::Advance(id) => lemma_advance_wf(pool, id),
        Op::Finish(id) => lemma_finish_wf(pool, id),
        Op::Abort(id) => lemma_abort_wf(pool, id),
        Op::Teardown => lemma_teardown_wf(pool),
    }
}

/// The pool is never resized, and a worker keeps its id.
pub proof fn lemma_size_is_fixed<T>(pool: PoolView<T>, op: Op<T>)
    requires
        pool.wf(),
        pool.admits(op),
    ensures
        pool.next(op).size() == pool.size(),
        forall|i: int|
            0 <= i < pool.size() ==> (#[trigger] pool.next(op).workers[i]).id == pool.workers[i].id,
{
}

/// A worker that has terminated stays as it is: no transition starts it again
/// or changes why it ended.
pub proof fn lemma_terminated_is_final<T>(pool: PoolView<T>, op: Op<T>, i: int)
    requires
        pool.wf(),
        pool.admits(op),
        0 <= i < pool.size(),
        !pool.workers[i].live(),
    ensures
        pool.next(op).workers[i] == pool.workers[i],
{
}

/// The number of live workers is the number of receiving endpoints, it never
/// grows, and it is zero exactly when every worker has terminated.
pub proof fn lemma_live_workers<T>(pool: PoolView<T>, op: Op<T>)
    requires
        pool.wf(),
        pool.admits(op),
    ensures
        pool.live() == pool.queue.receivers,
        pool.live() <= pool.size(),
        pool.live() == 0 <==> pool.all_terminated(),
        pool.next(op).live() <= pool.live(),
{
    lemma_live_count_bounds(pool.workers);
    lemma_next_wf(pool, op);
}

/// At most one worker at a time is at the queue's receiving end: two workers
/// that are both waiting are one worker, and it is the one who holds the lock.
pub proof fn lemma_one_receiver_at_a_time<T>(pool: PoolView<T>, i: int, j: int)
    requires
        pool.wf(),
        0 <= i < pool.size(),
        0 <= j < pool.size(),
        pool.workers[i].state is Waiting,
        pool.workers[j].state is Waiting,
    ensures
        i == j,
        pool.lock == Lock::Held(i as usize),
{
    assert(pool.workers[i].agrees_with(pool.lock));
    assert(pool.workers[j].agrees_with(pool.lock));
}

/// Only a worker that holds the lock takes an item from the queue: a pass
/// that changes what is pending is the pass of a worker that held the lock or
/// found it free, and it leaves the lock free.
pub proof fn lemma_only_the_holder_receives<T>(pool: PoolView<T>, id: usize)
    requires
        pool.wf(),
        pool.has(id),
        pool.advance(id).queue.pending != pool.queue.pending,
    ensures
        pool.lock == Lock::Held(id) || pool.lock == Lock::Free,
        pool.advance(id).lock == Lock::Free,
        forall|i: int|
            0 <= i < pool.size() && i != id ==> !((#[trigger] pool.workers[i]).state is Waiting),
{
    assert(pool.workers[id as int].agrees_with(pool.lock));
    assert forall|i: int| 0 <= i < pool.size() && i != id implies !((
    #[trigger] pool.workers[i]).state is Waiting) by {
        assert(pool.workers[i].agrees_with(pool.lock));
    }
}

/// Nothing is lost, doubled or reordered: the accepted items are the items
/// handed out so far, followed by the pending ones.
pub proof fn lemma_accepted_is_handed_then_pending<T>(pool: PoolView<T>)
    requires
        pool.wf(),
    ensures
        pool.accepted == pool.handed + pool.queue.pending,
        pool.handed.len() + pool.queue.pending.len() == pool.accepted.len(),
        pool.handed == pool.accepted.take(pool.handed.len() as int),
        pool.queue.pending == pool.accepted.skip(pool.handed.len() as int),
{
    assert(pool.handed =~= pool.accepted.take(pool.handed.len() as int));
    assert(pool.queue.pending =~= pool.accepted.skip(pool.handed.len() as int));
}

/// Items leave the queue in the order in which they came, and none is
/// skipped: a transition hands out nothing, or the oldest pending item; it
/// accepts nothing, or the submitted item as the newest.
pub proof fn lemma_first_in_first_out<T>(pool: PoolView<T>, op: Op<T>)
    requires
        pool.wf(),
        pool.admits(op),
    ensures
        pool.next(op).handed == pool.handed || (pool.queue.pending.len() > 0 && pool.next(op).handed
            == pool.handed.push(pool.queue.pending[0]) && pool.next(op).queue.pending
            == pool.queue.pending.drop_first()),
        pool.next(op).accepted == pool.accepted || (op matches Op::Execute(item) && pool.next(
            op,
        ).accepted == pool.accepted.push(item) && pool.next(op).queue.pending
            == pool.queue.pending.push(item)),
{
}

/// The execution of an item only moves forward: the item stays with the
/// worker that took it, and once it has completed or failed it keeps that
/// mark, so no item is run a second time.
pub proof fn lemma_outcome_is_final<T>(pool: PoolView<T>, op: Op<T>, k: int)
    requires
        pool.wf(),
        pool.admits(op),
        0 <= k < pool.progress.len(),
    ensures
        k < pool.next(op).progress.len(),
        pool.next(op).handed[k] == pool.handed[k],
        pool.next(op).progress[k].worker() == pool.progress[k].worker(),
        !(pool.progress[k] is Running) ==> pool.next(op).progress[k] == pool.progress[k],
{
}

/// A worker runs one item at a time: the item it is running is the last one
/// it took, and no other item is marked as running on it.
pub proof fn lemma_one_item_at_a_time<T>(pool: PoolView<T>, j: int, k: int)
    requires
        pool.wf(),
        0 <= j < pool.progress.len(),
        0 <= k < pool.progress.len(),
        j != k,
        pool.progress[j] is Running,
        pool.progress[k].worker() == pool.progress[j].worker(),
    ensures
        k < j,
        !(pool.progress[k] is Running),
{
}

/// A pool of one worker runs the items in the order of their submission, one
/// after the other: every item handed out before the last one has come to its
/// end.
pub proof fn lemma_single_worker_runs_in_order<T>(pool: PoolView<T>, k: int)
    requires
        pool.wf(),
        pool.size() == 1,
        0 <= k < pool.progress.len() - 1,
    ensures
        !(pool.progress[k] is Running),
{
    let last = pool.progress.len() - 1;
    assert(pool.progress[last].worker() == 0);
    assert(pool.progress[k].worker() == 0);
}

/// Once teardown has begun the queue stays closed, whatever happens next.
pub proof fn lemma_closed_is_final<T>(pool: PoolView<T>, op: Op<T>)
    requires
        pool.queue.closed,
    ensures
        pool.next(op).queue.closed,
{
}

/// A submission after teardown has begun is refused and changes nothing.
pub proof fn lemma_no_submission_after_teardown<T>(pool: PoolView<T>, item: T)
    ensures
        !pool.teardown().queue.accepts(),
        pool.teardown().execute(item) == pool.teardown(),
{
}

/// A submission to a pool without a live worker is refused and changes
/// nothing.
pub proof fn lemma_no_submission_without_workers<T>(pool: PoolView<T>, item: T)
    requires
        pool.wf(),
        pool.all_terminated(),
    ensures
        !pool.queue.accepts(),
        pool.execute(item) == pool,
{
    lemma_live_count_bounds(pool.workers);
}

/// No work is dropped: once every worker has terminated, at least one of
/// them because it saw the end of the stream, nothing is pending, every
/// accepted item was handed to a worker, in the order of acceptance, and none
/// is running any more.
pub proof fn lemma_no_work_dropped<T>(pool: PoolView<T>)
    requires
        pool.wf(),
        pool.all_terminated(),
        pool.drained(),
    ensures
        pool.queue.closed,
        pool.settled(),
{
    assert(pool.handed =~= pool.handed + pool.queue.pending);
    assert forall|k: int| 0 <= k < pool.progress.len() implies !((
    #[trigger] pool.progress[k]) is Running) by {
        if let Progress::Running(w) = pool.progress[k] {
            assert(!pool.workers[w].live());
        }
    }
}

/// Every item is run exactly once: under the conditions of
/// `lemma_no_work_dropped`, and if no item failed, each accepted item has
/// completed, so as many have completed as were accepted.
pub proof fn lemma_every_item_completed<T>(pool: PoolView<T>)
    requires
        pool.wf(),
        pool.all_terminated(),
        pool.drained(),
        forall|k: int| 0 <= k < pool.progress.len() ==> !((#[trigger] pool.progress[k]) is Failed),
    ensures
        pool.progress.len() == pool.accepted.len(),
        forall|k: int| 0 <= k < pool.accepted.len() ==> (#[trigger] pool.progress[k]) is Completed,
{
    lemma_no_work_dropped(pool);
}

/// A closed queue leaves no worker blocked: if teardown has begun and some
/// worker is idle or waiting, then some worker's next pass does not end in
/// `Wait`.
pub proof fn lemma_closed_queue_unblocks<T>(pool: PoolView<T>, i: int) -> (id: usize)
    requires
        pool.wf(),
        pool.queue.closed,
        0 <= i < pool.size(),
        pool.workers[i].state is Idle || pool.workers[i].state is Waiting,
    ensures
        pool.has(id),
        !(pool.step_of(id).action is Wait),
{
    assert(pool.workers[i].agrees_with(pool.lock));
    match pool.lock {
        Lock::Held(holder) => {
            assert(pool.workers[holder as int].agrees_with(pool.lock));
            holder
        },
        _ => i as usize,
    }
}

} // verus!
