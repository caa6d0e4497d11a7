//! What holds of whole runs of a pool, from the moment it was made: that the
//! invariant holds all the way, that every item submitted in time runs exactly
//! once, that a failing item strands no work, and that teardown can always
//! complete.

use crate::laws::{lemma_next_wf, lemma_no_work_dropped, lemma_size_is_fixed};
use crate::lock::Lock;
use crate::model::{
    lemma_advance_wf, lemma_finish_wf, lemma_init_wf, lemma_live_count_bounds,
    lemma_live_count_update, Op, PoolView,
};
use crate::worker::{Exit, WorkerState};
use vstd::prelude::*;

verus! {

/// Whether teardown begins somewhere in `ops`.
pub open spec fn tears_down<T>(ops: Seq<Op<T>>) -> bool {
    exists|i: int| 0 <= i < ops.len() && #[trigger] ops[i] is Teardown
}

/// The items that `ops` submits before teardown begins, in the order of their
/// submission.
pub open spec fn submitted<T>(ops: Seq<Op<T>>) -> Seq<T>
    decreases ops.len(),
{
    if ops.len() == 0 {
        Seq::empty()
    } else {
        match ops.last() {
            Op::Execute(item) if !tears_down(ops.drop_last()) => submitted(ops.drop_last()).push(
                item,
            ),
            _ => submitted(ops.drop_last()),
        }
    }
}

/// Whether no worker is aborted in `ops`.
pub open spec fn abort_free<T>(ops: Seq<Op<T>>) -> bool {
    forall|i: int| 0 <= i < ops.len() ==> !(#[trigger] ops[i] is Abort)
}

impl<T> PoolView<T> {
    /// Whether nothing has gone wrong so far: the lock is not poisoned, no
    /// item has failed, and every worker that has terminated did so because it
    /// saw the end of the stream.
    pub open spec fn unharmed(self) -> bool {
        &&& self.lock != Lock::Poisoned
        &&& forall|k: int|
            0 <= k < self.progress.len() ==> !((#[trigger] self.progress[k]) is Failed)
        &&& forall|i: int|
            0 <= i < self.workers.len() && !(#[trigger] self.workers[i]).live()
                ==> self.workers[i].state == WorkerState::Terminated(Exit::EndOfStream)
    }

    /// Whether the lock has never been poisoned: it is not poisoned now, and
    /// no worker terminated because it found it so.
    pub open spec fn lock_sound(self) -> bool {
        &&& self.lock != Lock::Poisoned
        &&& forall|i: int|
            0 <= i < self.workers.len() ==> (#[trigger] self.workers[i]).state
                != WorkerState::Terminated(Exit::LockPoisoned)
    }

    /// Whether some worker has not been aborted.
    pub open spec fn has_survivor(self) -> bool {
        exists|i: int|
            0 <= i < self.workers.len() && (#[trigger] self.workers[i]).state
                != WorkerState::Terminated(Exit::Aborted)
    }

    /// Whether every abort among `ops` strikes a worker while it runs an
    /// item: the only aborts are failures of work items.
    pub open spec fn only_items_abort(self, ops: Seq<Op<T>>) -> bool
        decreases ops.len(),
    {
        ops.len() == 0 || (self.only_items_abort(ops.drop_last()) && (ops.last() matches Op::Abort(
            id,
        ) ==> self.run(ops.drop_last()).workers[id as int].state is Executing))
    }
}

/// Every pool that the transitions can reach meets the invariant and has the
/// size it was made with.
pub proof fn lemma_reachable_wf<T>(pool: PoolView<T>, ops: Seq<Op<T>>)
    requires
        pool.wf(),
        pool.admits_all(ops),
    ensures
        pool.run(ops).wf(),
        pool.run(ops).size() == pool.size(),
    decreases ops.len(),
{
    if ops.len() > 0 {
        let before = pool.run(ops.drop_last());
        assert(pool.admits_all(ops.drop_last())) by {
            assert forall|i: int| 0 <= i < ops.drop_last().len() implies pool.admits(
                #[trigger] ops.drop_last()[i],
            ) by {
                assert(ops.drop_last()[i] == ops[i]);
            }
        }
        lemma_reachable_wf(pool, ops.drop_last());
        assert(pool.admits(ops.last()));
        assert(before.admits(ops.last()));
        lemma_next_wf(before, ops.last());
        lemma_size_is_fixed(before, ops.last());
    }
}

/// As long as no worker is aborted, nothing goes wrong: the lock is not
/// poisoned, no item fails, and a worker terminates only at the end of the
/// stream.
pub proof fn lemma_unharmed_without_abort<T>(pool: PoolView<T>, op: Op<T>)
    requires
        pool.wf(),
        pool.admits(op),
        pool.unharmed(),
        !(op is Abort),
    ensures
        pool.next(op).unharmed(),
{
    assert forall|i: int| 0 <= i < pool.size() implies (#[trigger] pool.workers[i]).agrees_with(
        pool.lock,
    ) by {}
}

/// The failure of a work item does not touch the lock: as long as workers are
/// aborted only while they run an item, the lock is never poisoned.
pub proof fn lemma_item_failure_keeps_lock_sound<T>(pool: PoolView<T>, op: Op<T>)
    requires
        pool.wf(),
        pool.admits(op),
        pool.lock_sound(),
        op matches Op::Abort(id) ==> pool.workers[id as int].state is Executing,
    ensures
        pool.next(op).lock_sound(),
{
    assert forall|i: int| 0 <= i < pool.size() implies (#[trigger] pool.workers[i]).agrees_with(
        pool.lock,
    ) by {}
}

/// A failing work item takes its own worker down and nothing else. Take a
/// new pool and let anything happen, as long as workers are aborted only
/// while they run an item. If at the end every worker has terminated and at
/// least one of them was not aborted, then no work was dropped: nothing is
/// pending, and every accepted item was handed to a worker and has completed
/// or failed.
pub proof fn lemma_item_failures_strand_no_work<T>(size: nat, ops: Seq<Op<T>>)
    requires
        0 < size <= usize::MAX,
        PoolView::<T>::init(size).admits_all(ops),
        PoolView::<T>::init(size).only_items_abort(ops),
        PoolView::<T>::init(size).run(ops).all_terminated(),
        PoolView::<T>::init(size).run(ops).has_survivor(),
    ensures
        PoolView::<T>::init(size).run(ops).settled(),
{
    let start = PoolView::<T>::init(size);
    lemma_init_wf::<T>(size);
    lemma_reachable_wf(start, ops);
    lemma_reachable_lock_sound(start, ops);
    lemma_survivor_drained(start.run(ops));
}

/// Where the lock was never poisoned, a worker that has terminated without
/// being aborted saw the end of the stream: if all have terminated and one of
/// them was not aborted, no work was dropped.
proof fn lemma_survivor_drained<T>(pool: PoolView<T>)
    requires
        pool.wf(),
        pool.lock_sound(),
        pool.all_terminated(),
        pool.has_survivor(),
    ensures
        pool.drained(),
        pool.settled(),
{
    let survivor = choose|i: int|
        0 <= i < pool.size() && (#[trigger] pool.workers[i]).state != WorkerState::Terminated(
            Exit::Aborted,
        );
    assert(!pool.workers[survivor].live());
    assert(pool.workers[survivor].state == WorkerState::Terminated(Exit::EndOfStream));
    lemma_no_work_dropped(pool);
}

/// `lemma_item_failure_keeps_lock_sound`, over a whole run.
proof fn lemma_reachable_lock_sound<T>(pool: PoolView<T>, ops: Seq<Op<T>>)
    requires
        pool.wf(),
        pool.lock_sound(),
        pool.admits_all(ops),
        pool.only_items_abort(ops),
    ensures
        pool.run(ops).lock_sound(),
    decreases ops.len(),
{
    if ops.len() > 0 {
        let earlier = ops.drop_last();
        assert forall|i: int| 0 <= i < earlier.len() implies pool.admits(#[trigger] earlier[i]) by {
            assert(earlier[i] == ops[i]);
        }
        lemma_reachable_wf(pool, earlier);
        lemma_reachable_lock_sound(pool, earlier);
        assert(pool.admits(ops.last()));
        lemma_item_failure_keeps_lock_sound(pool.run(earlier), ops.last());
    }
}

/// A run from a new pool in which no worker is aborted leaves the pool
/// unharmed, has accepted exactly what was submitted before teardown began,
/// and has closed the queue exactly if teardown has begun.
proof fn lemma_abort_free_run<T>(size: nat, ops: Seq<Op<T>>)
    requires
        0 < size <= usize::MAX,
        PoolView::<T>::init(size).admits_all(ops),
        abort_free(ops),
    ensures
        PoolView::<T>::init(size).run(ops).wf(),
        PoolView::<T>::init(size).run(ops).unharmed(),
        PoolView::<T>::init(size).run(ops).size() == size,
        PoolView::<T>::init(size).run(ops).accepted == submitted(ops),
        PoolView::<T>::init(size).run(ops).queue.closed == tears_down(ops),
    decreases ops.len(),
{
    let start = PoolView::<T>::init(size);
    lemma_init_wf::<T>(size);
    if ops.len() > 0 {
        let earlier = ops.drop_last();
        let op = ops.last();
        assert forall|i: int| 0 <= i < earlier.len() implies earlier[i] == ops[i] by {}
        assert(start.admits_all(earlier));
        assert(abort_free(earlier));
        lemma_abort_free_run(size, earlier);
        let before = start.run(earlier);
        assert(start.admits(op));
        lemma_next_wf(before, op);
        lemma_size_is_fixed(before, op);
        lemma_unharmed_without_abort(before, op);
        if tears_down(earlier) {
            let i = choose|i: int| 0 <= i < earlier.len() && #[trigger] earlier[i] is Teardown;
            assert(ops[i] is Teardown);
        } else {
            lemma_open_pool_accepts(before);
        }
        if tears_down(ops) && !tears_down(earlier) {
            let i = choose|i: int| 0 <= i < ops.len() && #[trigger] ops[i] is Teardown;
            if i < earlier.len() {
                assert(earlier[i] is Teardown);
            }
        }
        if op is Teardown {
            assert(ops[ops.len() - 1] is Teardown);
        }
    }
}

/// An unharmed pool whose queue is open takes what is submitted: all its
/// workers are live.
proof fn lemma_open_pool_accepts<T>(pool: PoolView<T>)
    requires
        pool.wf(),
        pool.unharmed(),
        !pool.queue.closed,
    ensures
        pool.live() == pool.size(),
        pool.queue.accepts(),
{
    lemma_live_count_bounds(pool.workers);
}

/// Every item runs exactly once. Take a new pool and any run of it in which
/// no worker is aborted: submissions, passes of workers, ends of items and
/// steps of teardown in any order. If at the end every worker has terminated,
/// then the items that were handed to workers are exactly those submitted
/// before teardown began, in the order of their submission, nothing is
/// pending, and each item has completed: as many as were submitted, none
/// twice and none left out.
pub proof fn lemma_every_item_runs_exactly_once<T>(size: nat, ops: Seq<Op<T>>)
    requires
        0 < size <= usize::MAX,
        PoolView::<T>::init(size).admits_all(ops),
        abort_free(ops),
        PoolView::<T>::init(size).run(ops).all_terminated(),
    ensures
        PoolView::<T>::init(size).run(ops).accepted == submitted(ops),
        PoolView::<T>::init(size).run(ops).handed == submitted(ops),
        PoolView::<T>::init(size).run(ops).queue.pending.len() == 0,
        PoolView::<T>::init(size).run(ops).progress.len() == submitted(ops).len(),
        forall|k: int|
            0 <= k < submitted(ops).len() ==> (#[trigger] PoolView::<T>::init(size).run(
                ops,
            ).progress[k]) is Completed,
{
    let end = PoolView::<T>::init(size).run(ops);
    lemma_abort_free_run(size, ops);
    assert(!end.workers[0].live());
    lemma_no_work_dropped(end);
}

/// Whether `op` is a step of a worker: a pass through its loop body, or the
/// end of its item.
pub open spec fn is_worker_step<T>(op: Op<T>) -> bool {
    op is Advance || op is Finish
}

/// The ends of the items of the workers `0..upto`, one after the other.
spec fn finishes<T>(upto: nat) -> Seq<Op<T>> {
    Seq::new(upto, |i: int| Op::Finish(i as usize))
}

/// A run of one transition is that transition.
proof fn lemma_run_one<T>(pool: PoolView<T>, op: Op<T>)
    ensures
        pool.run(seq![op]) == pool.next(op),
{
    assert(seq![op].drop_last() =~= Seq::<Op<T>>::empty());
    assert(pool.run(seq![op].drop_last()) == pool);
}

/// Running `first + second` is running `first` and then `second`.
proof fn lemma_run_append<T>(pool: PoolView<T>, first: Seq<Op<T>>, second: Seq<Op<T>>)
    ensures
        pool.run(first + second) == pool.run(first).run(second),
    decreases second.len(),
{
    if second.len() == 0 {
        assert(first + second =~= first);
    } else {
        lemma_run_append(pool, first, second.drop_last());
        assert((first + second).drop_last() =~= first + second.drop_last());
        assert((first + second).last() == second.last());
    }
}

/// Once every item that is running has come to its end, no worker is
/// executing, and the queue is as it was.
proof fn lemma_items_end<T>(pool: PoolView<T>, upto: nat)
    requires
        pool.wf(),
        upto <= pool.size(),
    ensures
        pool.run(finishes(upto)).wf(),
        pool.run(finishes(upto)).size() == pool.size(),
        pool.run(finishes(upto)).queue == pool.queue,
        forall|i: int|
            0 <= i < upto ==> !((
            #[trigger] pool.run(finishes(upto)).workers[i]).state is Executing),
    decreases upto,
{
    if upto > 0 {
        let earlier = (upto - 1) as nat;
        lemma_items_end(pool, earlier);
        assert(finishes::<T>(upto).drop_last() =~= finishes::<T>(earlier));
        assert(finishes::<T>(upto).last() == Op::<T>::Finish(earlier as usize));
        let before = pool.run(finishes(earlier));
        lemma_finish_wf(before, earlier as usize);
    }
}

/// Workers of which none is executing can all terminate once the queue is
/// closed: the steps that take them there are passes through the loop body,
/// each followed by the end of the item that it took.
proof fn lemma_idle_workers_can_stop<T>(pool: PoolView<T>) -> (schedule: Seq<Op<T>>)
    requires
        pool.wf(),
        pool.queue.closed,
        forall|i: int| 0 <= i < pool.size() ==> !((#[trigger] pool.workers[i]).state is Executing),
    ensures
        pool.admits_all(schedule),
        forall|i: int| 0 <= i < schedule.len() ==> is_worker_step(#[trigger] schedule[i]),
        pool.run(schedule).all_terminated(),
    decreases pool.queue.pending.len() + pool.live(),
{
    if pool.all_terminated() {
        Seq::empty()
    } else {
        let live = choose|i: int| 0 <= i < pool.size() && (#[trigger] pool.workers[i]).live();
        assert(pool.workers[live].agrees_with(pool.lock));
        let id = match pool.lock {
            Lock::Held(holder) => holder,
            _ => live as usize,
        };
        assert(pool.workers[id as int].agrees_with(pool.lock));
        let step = pool.step_of(id);
        let taken = pool.advance(id);
        lemma_advance_wf(pool, id);
        lemma_live_count_update(pool.workers, id as int, step.worker);
        let first = if step.action is Run {
            seq![Op::<T>::Advance(id), Op::<T>::Finish(id)]
        } else {
            seq![Op::<T>::Advance(id)]
        };
        let then = if step.action is Run {
            taken.finish(id)
        } else {
            taken
        };
        lemma_run_one(pool, Op::<T>::Advance(id));
        if step.action is Run {
            lemma_finish_wf(taken, id);
            lemma_live_count_update(
                taken.workers,
                id as int,
                taken.workers[id as int].finish_spec(),
            );
            assert(first.drop_last() =~= seq![Op::<T>::Advance(id)]);
        }
        assert(pool.run(first) == then);
        let rest = lemma_idle_workers_can_stop(then);
        lemma_run_append(pool, first, rest);
        first + rest
    }
}

/// Steps of workers abort nobody: the lock stays sound, and a worker that was
/// not aborted before is not aborted after.
proof fn lemma_worker_steps_abort_nobody<T>(pool: PoolView<T>, schedule: Seq<Op<T>>, i: int)
    requires
        pool.wf(),
        pool.admits_all(schedule),
        forall|k: int| 0 <= k < schedule.len() ==> is_worker_step(#[trigger] schedule[k]),
        0 <= i < pool.size(),
        pool.workers[i].state != WorkerState::Terminated(Exit::Aborted),
    ensures
        pool.only_items_abort(schedule),
        pool.run(schedule).workers[i].state != WorkerState::Terminated(Exit::Aborted),
    decreases schedule.len(),
{
    if schedule.len() > 0 {
        let earlier = schedule.drop_last();
        assert forall|k: int| 0 <= k < earlier.len() implies earlier[k] == schedule[k] by {}
        assert(pool.admits_all(earlier));
        lemma_worker_steps_abort_nobody(pool, earlier, i);
        lemma_reachable_wf(pool, earlier);
        assert(is_worker_step(schedule.last()));
        assert(pool.admits(schedule.last()));
    }
}

/// Teardown can always complete. From any pool whose queue is closed, the
/// workers' own steps take every worker to its end: each running item comes to
/// its end, and each worker goes on until it sees the end of the stream or a
/// poisoned lock. No worker is left blocked for good, and nothing has to be
/// submitted or aborted for the pool to come to rest. If the lock was never
/// poisoned and some worker was not aborted, the pool comes to rest with all
/// its work done.
pub proof fn lemma_teardown_can_complete<T>(pool: PoolView<T>) -> (schedule: Seq<Op<T>>)
    requires
        pool.wf(),
        pool.queue.closed,
    ensures
        pool.admits_all(schedule),
        forall|i: int| 0 <= i < schedule.len() ==> is_worker_step(#[trigger] schedule[i]),
        pool.run(schedule).all_terminated(),
        pool.lock_sound() && pool.has_survivor() ==> pool.run(schedule).settled(),
{
    let first = finishes::<T>(pool.size());
    lemma_items_end(pool, pool.size());
    let rest = lemma_idle_workers_can_stop(pool.run(first));
    lemma_run_append(pool, first, rest);
    let schedule = first + rest;
    assert(pool.admits_all(schedule));
    if pool.lock_sound() && pool.has_survivor() {
        let survivor = choose|i: int|
            0 <= i < pool.size() && (#[trigger] pool.workers[i]).state != WorkerState::Terminated(
                Exit::Aborted,
            );
        lemma_worker_steps_abort_nobody(pool, schedule, survivor);
        lemma_reachable_wf(pool, schedule);
        lemma_reachable_lock_sound(pool, schedule);
        assert(pool.run(schedule).workers[survivor].state != WorkerState::Terminated(
            Exit::Aborted,
        ));
        lemma_survivor_drained(pool.run(schedule));
    }
    schedule
}

} // verus!
