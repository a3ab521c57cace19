//! Supervising the workers, and shutting them down.
use vstd::prelude::*;

use crate::control_plane::{
    confirm_restart, crashed_workers, live_workers, positions, queue_depth, shutdown_workers,
    supervise, total_queue_depth, ShutdownStep, SupervisorStep, SHUTDOWN_INTERVAL,
    SUPERVISOR_INTERVAL,
};
use crate::state::{StateChange, WorkerSnapshot};

verus! {

/// The queue depth is what the queue lengths add up to.
proof fn lemma_depth_adds_up(pool: Seq<WorkerSnapshot>)
    ensures
        queue_depth(pool) == pool.fold_left(
            0int,
            |total: int, worker: WorkerSnapshot| total + worker.queue_len,
        ),
    decreases pool.len(),
{
    if pool.len() > 0 {
        lemma_depth_adds_up(pool.drop_last());
    }
}

/// Positions come in increasing order, and are positions in the pool.
proof fn lemma_positions_increase(
    pool: Seq<WorkerSnapshot>,
    holds: spec_fn(WorkerSnapshot) -> bool,
)
    requires
        pool.len() <= usize::MAX,
    ensures
        forall|i: int|
            0 <= i < positions(pool, holds).len() ==> #[trigger] positions(pool, holds)[i]
                < pool.len(),
        forall|i: int, j: int|
            0 <= i < j < positions(pool, holds).len() ==> #[trigger] positions(pool, holds)[i]
                < #[trigger] positions(pool, holds)[j],
    decreases pool.len(),
{
    if pool.len() > 0 {
        let before = positions(pool.drop_last(), holds);
        let all = positions(pool, holds);
        lemma_positions_increase(pool.drop_last(), holds);
        assert forall|i: int| 0 <= i < all.len() implies #[trigger] all[i] < pool.len() by {
            if i < before.len() {
                assert(all[i] == before[i]);
            }
        }
        assert forall|i: int, j: int| 0 <= i < j < all.len() implies #[trigger] all[i]
            < #[trigger] all[j] by {
            assert(all[i] == before[i]);
            if j < before.len() {
                assert(all[j] == before[j]);
            }
        }
    }
}

/// A requested shutdown comes before anything else. Else the supervisor stops exactly if the pool
/// is gone or every worker in it has exited, and otherwise it goes on: it restarts exactly the
/// workers that have crashed, each once and in order, and reports how many requests are waiting
/// with all workers together.
pub proof fn law_supervisor_restarts_the_crashed_and_reports_the_depth(
    shutdown: bool,
    pool: &Option<Vec<WorkerSnapshot>>,
    step: SupervisorStep,
)
    requires
        call_ensures(supervise, (shutdown, pool), step),
        pool matches Some(workers) ==> workers@.len() <= usize::MAX,
    ensures
        step is Shutdown <==> shutdown,
        step is Stop <==> !shutdown && (pool is None || forall|i: int|
            0 <= i < pool->0@.len() ==> (#[trigger] pool->0@[i]).status is Exit),
        step matches SupervisorStep::Continue(restarts, depth) ==> {
            &&& pool is Some
            &&& forall|i: int|
                0 <= i < restarts@.len() ==> (#[trigger] restarts@[i]) < pool->0@.len()
                    && pool->0@[restarts@[i] as int].status is Crashed
            &&& forall|w: int|
                0 <= w < pool->0@.len() && (#[trigger] pool->0@[w]).status is Crashed
                    ==> restarts@.contains(w as usize)
            &&& forall|i: int, j: int|
                0 <= i < j < restarts@.len() ==> #[trigger] restarts@[i] < #[trigger] restarts@[j]
            &&& ({
                let waiting = pool->0@.fold_left(
                    0int,
                    |total: int, worker: WorkerSnapshot| total + worker.queue_len,
                );
                &&& waiting <= usize::MAX ==> depth is Some && depth->0 == waiting
                &&& waiting > usize::MAX ==> depth is None
            })
        },
{
    if let Some(workers) = pool {
        let all = workers@;
        lemma_depth_adds_up(all);
        lemma_positions_increase(all, |worker: WorkerSnapshot| worker.status is Crashed);
        let named = crashed_workers(all);
        assert forall|i: int| 0 <= i < named.len() implies (#[trigger] named[i]) < all.len()
            && all[named[i] as int].status is Crashed by {
            assert(named.contains(named[i]));
            crate::control_plane::law_restarts_are_the_crashed(all, named[i]);
        }
        assert forall|w: int|
            0 <= w < all.len() && (#[trigger] all[w]).status is Crashed implies named.contains(
            w as usize,
        ) by {
            crate::control_plane::law_restarts_are_the_crashed(all, w as usize);
        }
    }
}

/// A shutdown is done exactly if the pool is gone or every worker in it has exited. Otherwise it
/// tells exactly the workers to exit that have not.
pub proof fn law_shutdown_tells_everybody_who_has_not_exited(
    pool: &Option<Vec<WorkerSnapshot>>,
    step: ShutdownStep,
)
    requires
        call_ensures(shutdown_workers, (pool,), step),
        pool matches Some(workers) ==> workers@.len() <= usize::MAX,
    ensures
        step is Done <==> pool is None || forall|i: int|
            0 <= i < pool->0@.len() ==> (#[trigger] pool->0@[i]).status is Exit,
        step matches ShutdownStep::Poll(told) ==> {
            &&& pool is Some
            &&& forall|i: int|
                0 <= i < told@.len() ==> (#[trigger] told@[i]) < pool->0@.len() && !(
                pool->0@[told@[i] as int].status is Exit)
            &&& forall|w: int|
                0 <= w < pool->0@.len() && !((#[trigger] pool->0@[w]).status is Exit)
                    ==> told@.contains(w as usize)
            &&& forall|i: int, j: int|
                0 <= i < j < told@.len() ==> #[trigger] told@[i] < #[trigger] told@[j]
        },
{
    if let Some(workers) = pool {
        let all = workers@;
        lemma_positions_increase(all, |worker: WorkerSnapshot| !(worker.status is Exit));
        let named = live_workers(all);
        assert forall|i: int| 0 <= i < named.len() implies (#[trigger] named[i]) < all.len() && !(
        all[named[i] as int].status is Exit) by {
            assert(named.contains(named[i]));
            crate::control_plane::law_told_to_exit_are_the_live(all, named[i]);
        }
        assert forall|w: int|
            0 <= w < all.len() && !((#[trigger] all[w]).status is Exit) implies named.contains(
            w as usize,
        ) by {
            crate::control_plane::law_told_to_exit_are_the_live(all, w as usize);
        }
    }
}

/// A worker that was to be restarted is reset if it is still crashed, and left alone otherwise.
pub proof fn law_only_a_crashed_worker_is_reset(
    snapshot: &WorkerSnapshot,
    change: Option<StateChange>,
)
    requires
        call_ensures(confirm_restart, (snapshot,), change),
    ensures
        snapshot.status is Crashed ==> change == Some(StateChange::Reset),
        !(snapshot.status is Crashed) ==> change is None,
{
}

/// The total queue depth is what the queue lengths of all workers add up to, whatever their status,
/// and there is none only where that does not fit.
pub proof fn law_queue_depth_counts_every_worker(pool: &Vec<WorkerSnapshot>, depth: Option<usize>)
    requires
        call_ensures(total_queue_depth, (pool,), depth),
    ensures
        ({
            let waiting = pool@.fold_left(
                0int,
                |total: int, worker: WorkerSnapshot| total + worker.queue_len,
            );
            &&& waiting <= usize::MAX ==> depth is Some && depth->0 == waiting
            &&& waiting > usize::MAX ==> depth is None
        }),
{
    lemma_depth_adds_up(pool@);
}

/// The queue depths of two parts of a pool add up to that of the pool, and the depth of one worker
/// is its queue length.
pub proof fn law_queue_depths_add_up(
    first: Seq<WorkerSnapshot>,
    second: Seq<WorkerSnapshot>,
    worker: WorkerSnapshot,
)
    ensures
        queue_depth(first + second) == queue_depth(first) + queue_depth(second),
        queue_depth(seq![worker]) == worker.queue_len,
        queue_depth(Seq::empty()) == 0,
    decreases second.len(),
{
    reveal_with_fuel(queue_depth, 2);
    assert(seq![worker].drop_last() =~= Seq::empty());
    if second.len() == 0 {
        assert(first + second =~= first);
    } else {
        law_queue_depths_add_up(first, second.drop_last(), worker);
        assert((first + second).drop_last() =~= first + second.drop_last());
    }
}

/// Crashed workers are looked for four times a second, and a shutdown looks twice a second.
pub proof fn law_rounds_in_a_second()
    ensures
        4 * SUPERVISOR_INTERVAL == 1_000,
        2 * SHUTDOWN_INTERVAL == 1_000,
{
}

} // verus!
