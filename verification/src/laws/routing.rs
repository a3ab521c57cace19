//! Routing a request round the pool, and the queues of workers.
use tokio::sync::mpsc::Sender;
use vstd::prelude::*;

use crate::error::BatchinfError;
use crate::pool::{
    dispatch_result, passed_over, pool_status, random_below, route_next, worker_status, Encounter,
    Route, RouteNext, RouteView,
};
use crate::queue::{dead_queue, try_send, QueuePushResult, WorkerRef};
use crate::state::{StateChange, WorkerSnapshot, WorkerState, WorkerStatus};

verus! {

/// A way round a pool starts at the worker that it is told to, or at one that was drawn, and has
/// met nobody yet.
pub proof fn law_way_starts_somewhere(size: usize, start: usize, told: Route, drawn: Route)
    requires
        call_ensures(Route::begin_at, (size, start), told),
        call_ensures(Route::begin, (size,), drawn),
    ensures
        told@.size == size,
        told@.start == start,
        told@.passed == 0,
        told@.fallback is None,
        drawn@.size == size,
        drawn@.start < size,
        drawn@.passed == 0,
        drawn@.fallback is None,
        size > 1 ==> exists|number: usize|
            drawn@.start == number && #[trigger] call_ensures(random_below, (size,), number),
{
    if size > 1 {
        let number = choose|number: usize|
            drawn@.start == number && #[trigger] call_ensures(
                Route::get_search_start,
                (size,),
                number,
            );
        assert(call_ensures(random_below, (size,), number));
    }
}

/// Routing looks at one worker after the other, round the pool, until it has met them all. Then it
/// leaves the request to the fallback, and there is nobody to leave it to only if there is no
/// fallback. In a pool of one worker the request is left to that worker.
pub proof fn law_routing_meets_everybody_and_falls_back(route: &Route, next: RouteNext)
    requires
        call_ensures(Route::next, (route,), next),
        route@.start < route@.size <= usize::MAX,
        route@.fallback matches Some(worker) ==> worker < route@.size,
    ensures
        route@.size == 1 ==> next == RouteNext::Dispatch(0),
        route@.size > 1 && route@.passed < route@.size ==> {
            &&& next matches RouteNext::Visit(worker)
            &&& route@.start + route@.passed < route@.size ==> worker == route@.start
                + route@.passed
            &&& route@.start + route@.passed >= route@.size ==> worker == route@.start
                + route@.passed - route@.size
        },
        route@.size > 1 && route@.passed >= route@.size ==> {
            &&& route@.fallback is None <==> next is Unavailable
            &&& route@.fallback is Some <==> next is Dispatch
            &&& next matches RouteNext::Dispatch(worker) ==> route@.fallback == Some(worker as nat)
        },
{
    lemma_round(route@.start, route@.passed, route@.size);
}

/// A position counted on from another goes round the pool.
proof fn lemma_round(start: nat, passed: nat, size: nat)
    requires
        start < size,
    ensures
        start + passed < size ==> ((start + passed) as nat) % size == start + passed,
        passed < size <= start + passed ==> ((start + passed) as nat) % size == start + passed
            - size,
{
    if passed < size {
        if start + passed < size {
            vstd::arithmetic::div_mod::lemma_small_mod((start + passed) as nat, size);
        } else {
            vstd::arithmetic::div_mod::lemma_fundamental_div_mod_converse(
                (start + passed) as int,
                size as int,
                1,
                start + passed - size,
            );
        }
    }
}

/// A worker is offered the request exactly if it waits and its batch has room. Otherwise the way
/// goes on past it, and it becomes the fallback if it is live and there is none yet: whatever its
/// queue length, a worker that has neither exited nor crashed is live.
pub proof fn law_live_worker_is_offered_or_kept_as_fallback(
    route: &mut Route,
    snapshot: &WorkerSnapshot,
    capacity: u64,
    offer: bool,
)
    requires
        call_ensures(Route::observe, (route, snapshot, capacity), offer),
        old(route)@.start < old(route)@.size,
        old(route)@.passed < old(route)@.size,
    ensures
        offer <==> snapshot.status is Waiting && snapshot.queue_len < capacity,
        final(route)@.size == old(route)@.size,
        final(route)@.start == old(route)@.start,
        offer ==> final(route)@ == old(route)@,
        !offer ==> final(route)@.passed == old(route)@.passed + 1,
        !offer && (snapshot.status is Exit || snapshot.status is Crashed) ==> final(route)@.fallback
            == old(route)@.fallback,
        !offer && !(snapshot.status is Exit) && !(snapshot.status is Crashed) ==> {
            &&& old(route)@.fallback is Some ==> final(route)@.fallback == old(route)@.fallback
            &&& old(route)@.fallback is None ==> {
                &&& final(route)@.fallback matches Some(worker)
                &&& old(route)@.start + old(route)@.passed < old(route)@.size ==> worker == old(
                    route,
                )@.start + old(route)@.passed
                &&& old(route)@.start + old(route)@.passed >= old(route)@.size ==> worker == old(
                    route,
                )@.start + old(route)@.passed - old(route)@.size
            }
        },
{
    lemma_round(old(route)@.start, old(route)@.passed, old(route)@.size);
}

/// A worker that was offered the request and took it ends the way. One that did not take it hands
/// it back as it was, and the way goes on past it; if its queue was full it becomes the fallback,
/// unless there is one, and if its queue was closed it does not.
pub proof fn law_refused_offer_goes_on<M>(
    route: &mut Route,
    result: QueuePushResult<M>,
    back: Option<M>,
)
    requires
        call_ensures(Route::settle::<M>, (route, result), back),
        old(route)@.start < old(route)@.size,
        old(route)@.passed < old(route)@.size,
    ensures
        final(route)@.size == old(route)@.size,
        final(route)@.start == old(route)@.start,
        match result {
            QueuePushResult::Success => back is None && final(route)@ == old(route)@,
            QueuePushResult::QueueClosed(msg) => {
                &&& back == Some(msg)
                &&& final(route)@.passed == old(route)@.passed + 1
                &&& final(route)@.fallback == old(route)@.fallback
            },
            QueuePushResult::QueueFull(msg) => {
                &&& back == Some(msg)
                &&& final(route)@.passed == old(route)@.passed + 1
                &&& old(route)@.fallback is Some ==> final(route)@.fallback == old(route)@.fallback
                &&& old(route)@.fallback is None ==> {
                    &&& final(route)@.fallback matches Some(worker)
                    &&& old(route)@.start + old(route)@.passed < old(route)@.size ==> worker == old(
                        route,
                    )@.start + old(route)@.passed
                    &&& old(route)@.start + old(route)@.passed >= old(route)@.size ==> worker == old(
                        route,
                    )@.start + old(route)@.passed - old(route)@.size
                }
            },
        },
{
    lemma_round(old(route)@.start, old(route)@.passed, old(route)@.size);
}

/// In a pool whose workers are all busy, exited or crashed, so that none is offered the request, it
/// is left to the first one met that has neither exited nor crashed, if there is one, and only else
/// is there nobody to leave it to.
pub proof fn law_busy_pool_leaves_the_request_to_a_live_worker(
    size: usize,
    start: nat,
    seen: Seq<WorkerSnapshot>,
    k: int,
)
    requires
        size > 1,
        start < size,
        seen.len() == size,
    ensures
        ({
            let met = seen.map_values(|snapshot: WorkerSnapshot| passed_over(snapshot));
            let end = RouteView::begin(size as nat, start).after_all(met);
            &&& 0 <= k < size && !(seen[k].status is Exit) && !(seen[k].status is Crashed) && (
            forall|j: int|
                0 <= j < k ==> ((#[trigger] seen[j]).status is Exit || seen[j].status is Crashed))
                ==> route_next(end) == RouteNext::Dispatch(
                (if start + k < size {
                    start + k
                } else {
                    start + k - size
                }) as usize,
            )
            &&& (forall|j: int|
                0 <= j < size ==> ((#[trigger] seen[j]).status is Exit
                    || seen[j].status is Crashed)) ==> route_next(end) is Unavailable
        }),
{
    let met = seen.map_values(|snapshot: WorkerSnapshot| passed_over(snapshot));
    let way = RouteView::begin(size as nat, start);
    crate::pool::law_fallback_gets_request(size, start, met);
    if 0 <= k < size {
        lemma_round(start, k as nat, size as nat);
        if !(seen[k].status is Exit) && !(seen[k].status is Crashed) && (forall|j: int|
            0 <= j < k ==> ((#[trigger] seen[j]).status is Exit || seen[j].status is Crashed)) {
            assert forall|j: int| 0 <= j < k implies !(#[trigger] met[j]).leaves_fallback() by {
                assert(met[j] == passed_over(seen[j]));
            }
            assert(met[k].leaves_fallback());
            assert(crate::pool::first_at(met, |e: Encounter| e.leaves_fallback(), k));
            assert(way.met(k as nat) == ((start + k) as nat) % (size as nat));
        }
    }
    if forall|j: int|
        0 <= j < size ==> ((#[trigger] seen[j]).status is Exit || seen[j].status is Crashed) {
        assert forall|j: int| 0 <= j < met.len() implies (#[trigger] met[j] is Gone
            || met[j] is Closed) by {
            assert(met[j] == passed_over(seen[j]));
        }
    }
}

/// A caller whose request was left to a worker is told whether that worker's queue took it, was
/// full or was closed, and a caller whose request nobody could be left with is told so.
pub proof fn law_caller_is_told_how_routing_ended<M, E>(
    result: Option<QueuePushResult<M>>,
    told: Result<(), BatchinfError<E>>,
)
    requires
        call_ensures(dispatch_result::<M, E>, (result,), told),
    ensures
        told is Ok <==> result is Some && result->0 is Success,
        told == Err::<(), BatchinfError<E>>(BatchinfError::QueueFullError) <==> result is Some
            && result->0 is QueueFull,
        told == Err::<(), BatchinfError<E>>(BatchinfError::NoAvailableWorkersError) <==> result
            is None || result->0 is QueueClosed,
{
}

/// The status of a pool is that of each of its workers, at the position of the worker, and there is
/// none past the last.
pub proof fn law_status_is_by_position(
    workers: &Vec<WorkerState>,
    status: Vec<WorkerSnapshot>,
    idx: usize,
    one: Option<WorkerSnapshot>,
)
    requires
        call_ensures(pool_status, (workers,), status),
        call_ensures(worker_status, (workers, idx), one),
    ensures
        status@.len() == workers@.len(),
        forall|i: int| 0 <= i < workers@.len() ==> #[trigger] status@[i] == workers@[i]@,
        idx < workers@.len() ==> one == Some(workers@[idx as int]@),
        idx >= workers@.len() ==> one is None,
{
}

/// A message is sent to the queue of a worker that waits or runs a batch, and the result is that of
/// sending it. A worker that has exited or crashed is sent nothing. What is not taken is handed
/// back.
pub proof fn law_message_goes_to_the_queue_of_a_live_worker<M>(
    worker: &WorkerRef<M>,
    status: WorkerStatus,
    msg: M,
    result: QueuePushResult<M>,
)
    requires
        call_ensures(WorkerRef::<M>::push, (worker, status, msg), result),
    ensures
        status is Waiting || status is Running ==> call_ensures(
            try_send::<M>,
            (&worker.queue(), msg),
            result,
        ),
        status is Exit || status is Crashed ==> result == QueuePushResult::QueueClosed(msg),
        result matches QueuePushResult::QueueFull(back) ==> back == msg,
        result matches QueuePushResult::QueueClosed(back) ==> back == msg,
{
}

/// A worker has the queue that it was made with, until it is given another. Telling it to exit sets
/// its status to `Exit` and gives it a dead queue.
pub proof fn law_queue_is_the_one_given_last<M>(
    worker: &mut WorkerRef<M>,
    queue: Sender<M>,
    made: WorkerRef<M>,
    change: StateChange,
)
    requires
        call_ensures(WorkerRef::<M>::new, (queue,), made),
    ensures
        made.queue() == queue,
        call_ensures(WorkerRef::<M>::replace_queue, (worker, queue), ()) ==> final(worker).queue()
            == queue,
        call_ensures(WorkerRef::<M>::set_exit, (worker,), change) ==> change
            == StateChange::Status(WorkerStatus::Exit) && call_ensures(
            dead_queue::<M>,
            (),
            final(worker).queue(),
        ),
{
}

} // verus!
