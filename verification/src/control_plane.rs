//! Supervision: which workers are restarted, and when the supervisor or a shutdown is done.
use vstd::prelude::*;

use crate::state::{changed_once, StateChange, WorkerSnapshot, WorkerStatus};

verus! {

/// How long the supervisor sleeps between two rounds, in milliseconds.
pub const SUPERVISOR_INTERVAL: u64 = 250;

/// How long a shutdown sleeps between two rounds, in milliseconds.
pub const SHUTDOWN_INTERVAL: u64 = 500;

/// Whether every worker has exited.
pub open spec fn all_exited(pool: Seq<WorkerSnapshot>) -> bool {
    forall|i: int| 0 <= i < pool.len() ==> (#[trigger] pool[i]).status is Exit
}

/// The positions, in increasing order, of the workers for which a condition holds.
pub open spec fn positions(
    pool: Seq<WorkerSnapshot>,
    holds: spec_fn(WorkerSnapshot) -> bool,
) -> Seq<usize>
    decreases pool.len(),
{
    if pool.len() == 0 {
        Seq::empty()
    } else {
        let before = positions(pool.drop_last(), holds);
        if holds(pool.last()) {
            before.push((pool.len() - 1) as usize)
        } else {
            before
        }
    }
}

/// The workers that have crashed.
pub open spec fn crashed_workers(pool: Seq<WorkerSnapshot>) -> Seq<usize> {
    positions(pool, |worker: WorkerSnapshot| worker.status is Crashed)
}

/// The workers that have not exited.
pub open spec fn live_workers(pool: Seq<WorkerSnapshot>) -> Seq<usize> {
    positions(pool, |worker: WorkerSnapshot| !(worker.status is Exit))
}

/// The total number of requests waiting to be serviced.
pub open spec fn queue_depth(pool: Seq<WorkerSnapshot>) -> nat
    decreases pool.len(),
{
    if pool.len() == 0 {
        0
    } else {
        queue_depth(pool.drop_last()) + pool.last().queue_len as nat
    }
}

/// What the supervisor does in a round.
#[derive(Debug)]
pub enum SupervisorStep {
    /// A shutdown was requested: leave supervision and shut the workers down.
    Shutdown,
    /// There is nothing left to supervise.
    Stop,
    /// Restart these workers, report the queue depth once and go on after a while. There is no
    /// queue depth to report where the total does not fit.
    Continue(Vec<usize>, Option<usize>),
}

/// One round of supervision. A requested shutdown comes first. The pool is gone once nobody holds
/// it any more. If all workers have exited, then the supervisor stops as well. The queue depth
/// counts every worker as it was seen, the crashed ones too.
pub fn supervise(shutdown: bool, pool: &Option<Vec<WorkerSnapshot>>) -> (step: SupervisorStep)
    ensures
        match (shutdown, *pool) {
            (true, _) => step is Shutdown,
            (false, None) => step is Stop,
            (false, Some(workers)) => if all_exited(workers@) {
                step is Stop
            } else {
                &&& step matches SupervisorStep::Continue(restarts, depth)
                &&& restarts@ == crashed_workers(workers@)
                &&& depth is Some <==> queue_depth(workers@) <= usize::MAX
                &&& depth matches Some(total) ==> total == queue_depth(workers@)
            },
        },
{
    if shutdown {
        return SupervisorStep::Shutdown;
    }
    match pool {
        None => SupervisorStep::Stop,
        Some(workers) => {
            let mut exited: usize = 0;
            let mut restarts: Vec<usize> = Vec::new();
            for i in 0..workers.len()
                invariant
                    exited <= i,
                    exited == i <==> all_exited(workers@.take(i as int)),
                    restarts@ == crashed_workers(workers@.take(i as int)),
            {
                let ghost seen = workers@.take(i + 1);
                assert(seen.drop_last() =~= workers@.take(i as int));
                assert(seen.last() == workers@[i as int]);
                match workers[i].status {
                    WorkerStatus::Crashed => restarts.push(i),
                    WorkerStatus::Exit => {
                        exited = exited + 1;
                    },
                    WorkerStatus::Waiting => {},
                    WorkerStatus::Running => {},
                }
                proof {
                    lemma_all_exited_last(seen);
                }
            }
            assert(workers@.take(workers@.len() as int) =~= workers@);
            if exited == workers.len() {
                SupervisorStep::Stop
            } else {
                SupervisorStep::Continue(restarts, total_queue_depth(workers))
            }
        },
    }
}

/// All workers have exited when all before the last have, and the last.
proof fn lemma_all_exited_last(pool: Seq<WorkerSnapshot>)
    requires
        pool.len() > 0,
    ensures
        all_exited(pool) <==> all_exited(pool.drop_last()) && pool.last().status is Exit,
{
    if all_exited(pool) {
        assert forall|i: int| 0 <= i < pool.drop_last().len() implies (
        #[trigger] pool.drop_last()[i]).status is Exit by {
            assert(pool.drop_last()[i] == pool[i]);
        }
    }
    if all_exited(pool.drop_last()) && pool.last().status is Exit {
        assert forall|i: int| 0 <= i < pool.len() implies (#[trigger] pool[i]).status is Exit by {
            if i < pool.len() - 1 {
                assert(pool[i] == pool.drop_last()[i]);
            }
        }
    }
}

/// The change of the word of a worker that was seen to have crashed, if it is restarted.
pub open spec fn restart_change(snapshot: WorkerSnapshot) -> Option<StateChange> {
    if snapshot.status is Crashed {
        Some(StateChange::Reset)
    } else {
        None
    }
}

/// Whether a worker is restarted that was seen to have crashed, now that nobody else can reach its
/// queue, and the change of its word if it is. It should not have changed its status, and is left
/// alone if it has.
pub fn confirm_restart(snapshot: &WorkerSnapshot) -> (change: Option<StateChange>)
    ensures
        change == restart_change(*snapshot),
{
    match snapshot.status {
        WorkerStatus::Crashed => Some(StateChange::Reset),
        _ => None,
    }
}

/// A worker of the pool: what its word holds, and its queue.
pub struct SlotView<Q> {
    /// What its word holds.
    pub snapshot: WorkerSnapshot,
    /// Its queue.
    pub queue: Q,
}

impl<Q> SlotView<Q> {
    /// The worker once the supervisor has come to restart it with a fresh queue.
    pub open spec fn restarted(self, fresh: Q) -> SlotView<Q> {
        SlotView {
            snapshot: changed_once(self.snapshot, restart_change(self.snapshot)),
            queue: if restart_change(self.snapshot) is Some {
                fresh
            } else {
                self.queue
            },
        }
    }
}

/// The pool once the supervisor has come to restart these workers, one after the other.
pub open spec fn after_restarts<Q>(
    slots: Seq<SlotView<Q>>,
    restarts: Seq<usize>,
    fresh: spec_fn(usize) -> Q,
) -> Seq<SlotView<Q>>
    decreases restarts.len(),
{
    if restarts.len() == 0 {
        slots
    } else {
        let before = after_restarts(slots, restarts.drop_last(), fresh);
        let worker = restarts.last();
        before.update(worker as int, before[worker as int].restarted(fresh(worker)))
    }
}

/// The total queue depth, or nothing where the total does not fit.
pub fn total_queue_depth(pool: &Vec<WorkerSnapshot>) -> (depth: Option<usize>)
    ensures
        depth is Some <==> queue_depth(pool@) <= usize::MAX,
        depth matches Some(total) ==> total == queue_depth(pool@),
{
    let mut total: usize = 0;
    for i in 0..pool.len()
        invariant
            total == queue_depth(pool@.take(i as int)),
    {
        let ghost seen = pool@.take(i + 1);
        assert(seen.drop_last() =~= pool@.take(i as int));
        let room: u64 = (usize::MAX - total) as u64;
        if pool[i].queue_len > room {
            proof {
                lemma_queue_depth_grows(pool@, i + 1);
            }
            return None;
        }
        total = total + pool[i].queue_len as usize;
    }
    assert(pool@.take(pool@.len() as int) =~= pool@);
    Some(total)
}

/// A part of the pool has no more waiting requests than the pool.
proof fn lemma_queue_depth_grows(pool: Seq<WorkerSnapshot>, n: int)
    requires
        0 <= n <= pool.len(),
    ensures
        queue_depth(pool.take(n)) <= queue_depth(pool),
    decreases pool.len(),
{
    if n == pool.len() {
        assert(pool.take(n) =~= pool);
    } else {
        assert(pool.drop_last().take(n) =~= pool.take(n));
        lemma_queue_depth_grows(pool.drop_last(), n);
    }
}

/// What a shutdown does in a round.
#[derive(Debug)]
pub enum ShutdownStep {
    /// Every worker has exited, or nobody holds the pool any more.
    Done,
    /// Tell these workers to exit, and look again after a while.
    Poll(Vec<usize>),
}

/// One round of a shutdown: tells every worker to exit that has not. A worker that is running a
/// batch goes back to waiting when the batch is done, so it is looked at again until a round finds
/// that all have exited.
pub fn shutdown_workers(pool: &Option<Vec<WorkerSnapshot>>) -> (step: ShutdownStep)
    ensures
        match *pool {
            None => step is Done,
            Some(workers) => if all_exited(workers@) {
                step is Done
            } else {
                &&& step matches ShutdownStep::Poll(told)
                &&& told@ == live_workers(workers@)
            },
        },
{
    match pool {
        None => ShutdownStep::Done,
        Some(workers) => {
            let mut exited: usize = 0;
            let mut told: Vec<usize> = Vec::new();
            for i in 0..workers.len()
                invariant
                    exited <= i,
                    exited == i <==> all_exited(workers@.take(i as int)),
                    told@ == live_workers(workers@.take(i as int)),
            {
                let ghost seen = workers@.take(i + 1);
                assert(seen.drop_last() =~= workers@.take(i as int));
                assert(seen.last() == workers@[i as int]);
                if matches!(workers[i].status, WorkerStatus::Exit) {
                    exited = exited + 1;
                } else {
                    told.push(i);
                }
                proof {
                    lemma_all_exited_last(seen);
                }
            }
            assert(workers@.take(workers@.len() as int) =~= workers@);
            if exited == workers.len() {
                ShutdownStep::Done
            } else {
                ShutdownStep::Poll(told)
            }
        },
    }
}

/// The positions are exactly those of the workers for which the condition holds.
proof fn lemma_positions(
    pool: Seq<WorkerSnapshot>,
    holds: spec_fn(WorkerSnapshot) -> bool,
    worker: usize,
)
    requires
        pool.len() <= usize::MAX,
    ensures
        positions(pool, holds).contains(worker) <==> worker < pool.len() && holds(
            pool[worker as int],
        ),
    decreases pool.len(),
{
    if pool.len() > 0 {
        let before = positions(pool.drop_last(), holds);
        lemma_positions(pool.drop_last(), holds, worker);
        let last: usize = (pool.len() - 1) as usize;
        if holds(pool.last()) {
            let all = before.push(last);
            assert(all[all.len() - 1] == last);
            if before.contains(worker) {
                let at = choose|at: int| 0 <= at < before.len() && before[at] == worker;
                assert(all[at] == worker);
            }
            if all.contains(worker) && worker != last {
                let at = choose|at: int| 0 <= at < all.len() && all[at] == worker;
                assert(before[at] == worker);
            }
        }
    }
}

/// A worker is restarted in a round if and only if it was seen to have crashed.
pub proof fn law_restarts_are_the_crashed(pool: Seq<WorkerSnapshot>, worker: usize)
    requires
        pool.len() <= usize::MAX,
    ensures
        crashed_workers(pool).contains(worker) <==> worker < pool.len()
            && pool[worker as int].status is Crashed,
{
    lemma_positions(pool, |snapshot: WorkerSnapshot| snapshot.status is Crashed, worker);
}

/// A part of the pool is gone through before the rest: each worker in it is restarted or left as it
/// is, and the workers behind it are left as they are.
proof fn lemma_restarts<Q>(
    seen: Seq<WorkerSnapshot>,
    slots: Seq<SlotView<Q>>,
    fresh: spec_fn(usize) -> Q,
)
    requires
        seen.len() <= slots.len() <= usize::MAX,
    ensures
        ({
            let after = after_restarts(slots, crashed_workers(seen), fresh);
            &&& after.len() == slots.len()
            &&& forall|i: int|
                0 <= i < slots.len() ==> #[trigger] after[i] == (if i < seen.len()
                    && seen[i].status is Crashed {
                    slots[i].restarted(fresh(i as usize))
                } else {
                    slots[i]
                })
        }),
    decreases seen.len(),
{
    if seen.len() > 0 {
        let part = seen.drop_last();
        lemma_restarts(part, slots, fresh);
        if seen.last().status is Crashed {
            let last: usize = (seen.len() - 1) as usize;
            assert(crashed_workers(seen) == crashed_workers(part).push(last));
            assert(crashed_workers(part).push(last).drop_last() =~= crashed_workers(part));
        }
    }
}

/// What a round of supervision leaves of the pool: as many workers in the same places; a worker
/// that was seen to have crashed, and has not changed its status since, is idle and has a fresh
/// queue; and every other worker keeps its state and its queue.
pub proof fn law_round_restarts_only_the_crashed<Q>(
    seen: Seq<WorkerSnapshot>,
    slots: Seq<SlotView<Q>>,
    fresh: spec_fn(usize) -> Q,
)
    requires
        seen.len() == slots.len() <= usize::MAX,
    ensures
        ({
            let after = after_restarts(slots, crashed_workers(seen), fresh);
            &&& after.len() == slots.len()
            &&& forall|i: int|
                0 <= i < slots.len() ==> #[trigger] after[i] == (if seen[i].status is Crashed
                    && slots[i].snapshot.status is Crashed {
                    SlotView { snapshot: WorkerSnapshot::idle(), queue: fresh(i as usize) }
                } else {
                    slots[i]
                })
        }),
{
    lemma_restarts(seen, slots, fresh);
}

/// A worker is told to exit in a round if and only if it was seen not to have exited.
pub proof fn law_told_to_exit_are_the_live(pool: Seq<WorkerSnapshot>, worker: usize)
    requires
        pool.len() <= usize::MAX,
    ensures
        live_workers(pool).contains(worker) <==> worker < pool.len()
            && !(pool[worker as int].status is Exit),
{
    lemma_positions(pool, |snapshot: WorkerSnapshot| !(snapshot.status is Exit), worker);
}

/// A shutdown is done after one round if nobody changes a status in between: once the workers that
/// a round names have been told to exit, and the others are as they were, all have exited.
pub proof fn law_shutdown_settles(pool: Seq<WorkerSnapshot>, later: Seq<WorkerSnapshot>)
    requires
        pool.len() <= usize::MAX,
        later.len() == pool.len(),
        forall|i: int|
            0 <= i < pool.len() ==> #[trigger] later[i] == (if live_workers(pool).contains(
                i as usize,
            ) {
                pool[i].with_status(WorkerStatus::Exit)
            } else {
                pool[i]
            }),
    ensures
        all_exited(later),
{
    assert forall|i: int| 0 <= i < later.len() implies (#[trigger] later[i]).status is Exit by {
        law_told_to_exit_are_the_live(pool, i as usize);
    }
}

/// The requests in accumulation are at most a batch for each worker.
pub proof fn law_queue_depth_within_capacity(pool: Seq<WorkerSnapshot>, size: u64)
    requires
        forall|i: int| 0 <= i < pool.len() ==> (#[trigger] pool[i]).queue_len <= size,
    ensures
        queue_depth(pool) <= pool.len() * size,
    decreases pool.len(),
{
    if pool.len() > 0 {
        let before = pool.drop_last();
        assert forall|i: int| 0 <= i < before.len() implies (#[trigger] before[i]).queue_len
            <= size by {
            assert(before[i] == pool[i]);
        }
        law_queue_depth_within_capacity(before, size);
        assert(pool[pool.len() - 1].queue_len <= size);
        assert(pool.len() * size == (pool.len() - 1) * size + size) by (nonlinear_arith);
    }
}

} // verus!
