//! Routing: which worker of the pool a request goes to.
//!
//! Routing is a load aware round robin that starts at a random worker. It goes once round the pool
//! and offers the request to each worker that waits and has room in its batch. When no worker takes
//! it, the request goes to the fallback, the first live worker that was passed over on the way.
use vstd::prelude::*;

use crate::error::BatchinfError;
use crate::queue::QueuePushResult;
use crate::state::{WorkerSnapshot, WorkerState, WorkerStatus};

verus! {

/// Calls `fastrand::usize` on the range from zero up to `size`, which is not empty: a number below
/// `size`. Which one is left to chance.
#[verifier::external_body]
pub fn random_below(size: usize) -> (number: usize)
    requires
        size > 0,
    ensures
        number < size,
{
    fastrand::usize(..size)
}

/// What came of one worker on the way round the pool.
pub enum Encounter {
    /// It has exited or crashed.
    Gone,
    /// It is live, but runs a batch or has a full one. It is offered nothing.
    Busy,
    /// It was offered the request, and its queue was full.
    Full,
    /// It was offered the request, and its queue was closed.
    Closed,
    /// It was offered the request, and took it.
    Took,
}

impl Encounter {
    /// Whether the worker was passed over and can still be fallen back to.
    pub open spec fn leaves_fallback(self) -> bool {
        self is Busy || self is Full
    }
}

/// Whether a worker is offered the request: it waits, and its batch has room. The second condition
/// is for a worker that is full and has yet to update its status.
pub open spec fn has_room(snapshot: WorkerSnapshot, capacity: u64) -> bool {
    snapshot.status is Waiting && snapshot.queue_len < capacity
}

/// What comes of a worker that is seen in this state and is offered nothing.
pub open spec fn passed_over(snapshot: WorkerSnapshot) -> Encounter {
    if crate::queue::gone(snapshot.status) {
        Encounter::Gone
    } else {
        Encounter::Busy
    }
}

/// What comes of a worker that was offered the request.
pub open spec fn offered<M>(result: QueuePushResult<M>) -> Encounter {
    match result {
        QueuePushResult::Success => Encounter::Took,
        QueuePushResult::QueueFull(_) => Encounter::Full,
        QueuePushResult::QueueClosed(_) => Encounter::Closed,
    }
}

/// The way round a pool, up to some point.
pub struct RouteView {
    /// The number of workers in the pool.
    pub size: nat,
    /// The worker that the way started at.
    pub start: nat,
    /// The number of workers that the way has passed.
    pub passed: nat,
    /// The worker to fall back to.
    pub fallback: Option<nat>,
}

impl RouteView {
    /// The way before its first step.
    pub open spec fn begin(size: nat, start: nat) -> RouteView {
        RouteView { size, start, passed: 0, fallback: None }
    }

    /// Whether the way is one round the pool.
    pub open spec fn wf(self) -> bool {
        &&& self.start < self.size
        &&& self.passed <= self.size
        &&& self.fallback matches Some(worker) ==> worker < self.size
    }

    /// The worker that is met after passing `k` others.
    pub open spec fn met(self, k: nat) -> nat {
        ((self.start + k) as nat) % self.size
    }

    /// The worker that the way has come to.
    pub open spec fn sink(self) -> nat {
        self.met(self.passed)
    }

    /// The way after the worker that it has come to. A worker that took the request ends it.
    pub open spec fn after(self, encounter: Encounter) -> RouteView {
        if encounter is Took {
            self
        } else {
            RouteView {
                passed: self.passed + 1,
                fallback: if encounter.leaves_fallback() && self.fallback is None {
                    Some(self.sink())
                } else {
                    self.fallback
                },
                ..self
            }
        }
    }

    /// The way after several workers.
    pub open spec fn after_all(self, encounters: Seq<Encounter>) -> RouteView
        decreases encounters.len(),
    {
        if encounters.len() == 0 {
            self
        } else {
            self.after_all(encounters.drop_last()).after(encounters.last())
        }
    }
}

/// What routing does next.
#[derive(Debug, Clone, Copy, PartialEq, Eq, Structural)]
pub enum RouteNext {
    /// Look at a worker.
    Visit(usize),
    /// Leave the request to a worker, whether it has room or not.
    Dispatch(usize),
    /// There is no worker to leave the request to.
    Unavailable,
}

/// The way of one request round the pool.
#[derive(Debug)]
pub struct Route {
    size: usize,
    start: usize,
    sink: usize,
    passed: usize,
    fallback: Option<usize>,
}

impl Route {
    /// The way so far.
    pub closed spec fn view(&self) -> RouteView {
        RouteView {
            size: self.size as nat,
            start: self.start as nat,
            passed: self.passed as nat,
            fallback: match self.fallback {
                Some(worker) => Some(worker as nat),
                None => None,
            },
        }
    }

    /// The way is one round the pool, and the worker that it has come to is kept up to date.
    pub closed spec fn wf(&self) -> bool {
        &&& self@.wf()
        &&& self.sink == self@.sink()
    }

    /// Starts at a random worker of a pool, rather than maintaining a round robin count. In a pool
    /// of one worker there is nothing to draw.
    pub fn begin(size: usize) -> (route: Route)
        requires
            size > 0,
        ensures
            route.wf(),
            route@ == RouteView::begin(size as nat, route@.start),
            route@.start < size,
            size > 1 ==> exists|start: usize|
                route@.start == start && #[trigger] call_ensures(
                    Route::get_search_start,
                    (size,),
                    start,
                ),
    {
        let start: usize = if size == 1 {
            0
        } else {
            Route::get_search_start(size)
        };
        Route::begin_at(size, start)
    }

    /// A random position in a pool.
    pub fn get_search_start(size: usize) -> (start: usize)
        requires
            size > 0,
        ensures
            start < size,
            call_ensures(random_below, (size,), start),
    {
        random_below(size)
    }

    /// Starts at a given worker of a pool.
    pub fn begin_at(size: usize, start: usize) -> (route: Route)
        requires
            start < size,
        ensures
            route.wf(),
            route@ == RouteView::begin(size as nat, start as nat),
    {
        proof {
            vstd::arithmetic::div_mod::lemma_small_mod(start as nat, size as nat);
        }
        Route { size, start, sink: start, passed: 0, fallback: None }
    }

    /// What routing does next. A pool of one worker needs no way round it.
    pub fn next(&self) -> (next: RouteNext)
        requires
            self.wf(),
        ensures
            next == route_next(self@),
    {
        if self.size == 1 {
            RouteNext::Dispatch(0)
        } else if self.passed < self.size {
            RouteNext::Visit(self.sink)
        } else {
            match self.fallback {
                Some(worker) => RouteNext::Dispatch(worker),
                None => RouteNext::Unavailable,
            }
        }
    }

    /// Looks at the worker that the way has come to. Says whether the request is to be offered to
    /// it; if not, the way goes on past it.
    pub fn observe(&mut self, snapshot: &WorkerSnapshot, capacity: u64) -> (offer: bool)
        requires
            old(self).wf(),
            route_next(old(self)@) is Visit,
        ensures
            final(self).wf(),
            offer == has_room(*snapshot, capacity),
            final(self)@ == (if offer {
                old(self)@
            } else {
                old(self)@.after(passed_over(*snapshot))
            }),
    {
        match snapshot.status {
            WorkerStatus::Exit => {
                self.advance();
                false
            },
            WorkerStatus::Crashed => {
                self.advance();
                false
            },
            WorkerStatus::Waiting if snapshot.queue_len < capacity => true,
            _ => {
                self.keep_fallback();
                self.advance();
                false
            },
        }
    }

    /// Takes in what became of the offer to the worker that the way has come to. Hands back the
    /// message if the worker did not take it, and then the way goes on past that worker.
    pub fn settle<M>(&mut self, result: QueuePushResult<M>) -> (back: Option<M>)
        requires
            old(self).wf(),
            route_next(old(self)@) is Visit,
        ensures
            final(self).wf(),
            final(self)@ == old(self)@.after(offered(result)),
            back is None <==> result is Success,
            back matches Some(msg) ==> result.keeps(msg),
    {
        match result {
            QueuePushResult::Success => None,
            QueuePushResult::QueueClosed(msg) => {
                self.advance();
                Some(msg)
            },
            QueuePushResult::QueueFull(msg) => {
                self.keep_fallback();
                self.advance();
                Some(msg)
            },
        }
    }

    /// Goes on past a worker.
    fn advance(&mut self)
        requires
            old(self).wf(),
            old(self)@.passed < old(self)@.size,
        ensures
            final(self).wf(),
            final(self)@ == (RouteView { passed: old(self)@.passed + 1, ..old(self)@ }),
    {
        let size: usize = self.size;
        let next: usize = if self.sink + 1 == size {
            0
        } else {
            self.sink + 1
        };
        proof {
            lemma_next_sink(self@.start, self@.passed, self@.size);
        }
        self.sink = next;
        self.passed = self.passed + 1;
    }

    /// Falls back to the worker that the way has come to, unless there is a fallback.
    fn keep_fallback(&mut self)
        requires
            old(self).wf(),
        ensures
            final(self).wf(),
            final(self)@ == (RouteView {
                fallback: if old(self)@.fallback is None {
                    Some(old(self)@.sink())
                } else {
                    old(self)@.fallback
                },
                ..old(self)@
            }),
    {
        match self.fallback {
            Some(_) => {},
            None => {
                self.fallback = Some(self.sink);
            },
        }
    }
}

/// What routing does next at some point of the way.
pub open spec fn route_next(way: RouteView) -> RouteNext {
    if way.size == 1 {
        RouteNext::Dispatch(0)
    } else if way.passed < way.size {
        RouteNext::Visit(way.sink() as usize)
    } else {
        match way.fallback {
            Some(worker) => RouteNext::Dispatch(worker as usize),
            None => RouteNext::Unavailable,
        }
    }
}

/// The worker after one at a position is the one at the next position, round the pool.
proof fn lemma_next_sink(start: nat, passed: nat, size: nat)
    requires
        size > 0,
    ensures
        ((start + passed) as nat) % size < size,
        ((start + passed + 1) as nat) % size == (if ((start + passed) as nat) % size + 1 == size {
            0
        } else {
            ((start + passed) as nat) % size + 1
        }),
{
    let at: int = (start + passed) as int;
    let n: int = size as int;
    vstd::arithmetic::div_mod::lemma_fundamental_div_mod(at, n);
    vstd::arithmetic::div_mod::lemma_mod_bound(at, n);
    let q: int = at / n;
    let r: int = at % n;
    if r + 1 == n {
        assert(at + 1 == (q + 1) * n + 0) by (nonlinear_arith)
            requires
                at == n * q + r,
                r + 1 == n,
        ;
        vstd::arithmetic::div_mod::lemma_fundamental_div_mod_converse(at + 1, n, q + 1, 0);
    } else {
        assert(at + 1 == q * n + (r + 1)) by (nonlinear_arith)
            requires
                at == n * q + r,
        ;
        vstd::arithmetic::div_mod::lemma_fundamental_div_mod_converse(at + 1, n, q, r + 1);
    }
}

/// What the caller is told at the end of the way: once the request has been left to a worker, or
/// when there is no worker to leave it to.
pub open spec fn dispatched<M, E>(result: Option<QueuePushResult<M>>) -> Result<
    (),
    BatchinfError<E>,
> {
    match result {
        Some(QueuePushResult::Success) => Ok(()),
        Some(QueuePushResult::QueueFull(_)) => Err(BatchinfError::QueueFullError),
        Some(QueuePushResult::QueueClosed(_)) => Err(BatchinfError::NoAvailableWorkersError),
        None => Err(BatchinfError::NoAvailableWorkersError),
    }
}

/// What the caller is told at the end of the way: once the request has been left to a worker, or
/// when there is no worker to leave it to.
pub fn dispatch_result<M, E>(result: Option<QueuePushResult<M>>) -> (told: Result<
    (),
    BatchinfError<E>,
>)
    ensures
        told == dispatched::<M, E>(result),
{
    match result {
        Some(QueuePushResult::Success) => Ok(()),
        Some(QueuePushResult::QueueFull(_)) => Err(BatchinfError::QueueFullError),
        Some(QueuePushResult::QueueClosed(_)) => Err(BatchinfError::NoAvailableWorkersError),
        None => Err(BatchinfError::NoAvailableWorkersError),
    }
}

/// A snapshot of every worker in the pool, indexed by worker position.
pub fn pool_status(workers: &Vec<WorkerState>) -> (status: Vec<WorkerSnapshot>)
    ensures
        status@ == workers@.map_values(|worker: WorkerState| worker@),
{
    let mut status: Vec<WorkerSnapshot> = Vec::with_capacity(workers.len());
    for i in 0..workers.len()
        invariant
            status@ == workers@.take(i as int).map_values(|worker: WorkerState| worker@),
    {
        status.push(workers[i].snapshot());
        assert(status@ =~= workers@.take(i + 1).map_values(|worker: WorkerState| worker@));
    }
    assert(workers@.take(workers@.len() as int) =~= workers@);
    status
}

/// A snapshot of the worker at `idx`, or `None` if there is no such worker.
pub fn worker_status(workers: &Vec<WorkerState>, idx: usize) -> (status: Option<WorkerSnapshot>)
    ensures
        status == (if idx < workers@.len() {
            Some(workers@[idx as int]@)
        } else {
            None
        }),
{
    if idx >= workers.len() {
        return None;
    }
    Some(workers[idx].snapshot())
}

/// Whether `k` is the first position at which a condition holds.
pub open spec fn first_at(
    encounters: Seq<Encounter>,
    holds: spec_fn(Encounter) -> bool,
    k: int,
) -> bool {
    &&& 0 <= k < encounters.len()
    &&& holds(encounters[k])
    &&& forall|j: int| 0 <= j < k ==> !holds(#[trigger] encounters[j])
}

/// As long as no worker takes the request, the way passes one worker for each that it has met, and
/// its fallback is the first worker that was passed over and is live.
pub proof fn law_way_so_far(size: nat, start: nat, encounters: Seq<Encounter>)
    requires
        start < size,
        encounters.len() <= size,
        forall|j: int| 0 <= j < encounters.len() ==> !(#[trigger] encounters[j] is Took),
    ensures
        ({
            let way = RouteView::begin(size, start);
            let end = way.after_all(encounters);
            &&& end.wf()
            &&& end.size == size
            &&& end.start == start
            &&& end.passed == encounters.len()
            &&& end.fallback is None <==> forall|j: int|
                0 <= j < encounters.len() ==> !(#[trigger] encounters[j]).leaves_fallback()
            &&& forall|k: int|
                first_at(encounters, |e: Encounter| e.leaves_fallback(), k)
                    ==> end.fallback == Some(#[trigger] way.met(k as nat))
        }),
    decreases encounters.len(),
{
    let way = RouteView::begin(size, start);
    let end = way.after_all(encounters);
    if encounters.len() > 0 {
        let before = encounters.drop_last();
        assert forall|j: int| 0 <= j < before.len() implies !(#[trigger] before[j] is Took) by {
            assert(before[j] == encounters[j]);
        }
        law_way_so_far(size, start, before);
        let last = encounters.last();
        assert(!(encounters[encounters.len() - 1] is Took));
        let mid = way.after_all(before);
        lemma_next_sink(start, mid.passed, size);
        assert forall|k: int|
            first_at(encounters, |e: Encounter| e.leaves_fallback(), k) implies end.fallback
            == Some(#[trigger] way.met(k as nat)) by {
            if k < before.len() {
                assert(before[k] == encounters[k]);
                assert forall|j: int| 0 <= j < k implies !(#[trigger] before[j]).leaves_fallback() by {
                    assert(before[j] == encounters[j]);
                }
                assert(first_at(before, |e: Encounter| e.leaves_fallback(), k));
                assert(mid.fallback == Some(way.met(k as nat)));
            } else {
                assert forall|j: int| 0 <= j < before.len() implies !(
                #[trigger] before[j]).leaves_fallback() by {
                    assert(before[j] == encounters[j]);
                }
            }
        }
        if end.fallback is None {
            assert forall|j: int| 0 <= j < encounters.len() implies !(
            #[trigger] encounters[j]).leaves_fallback() by {
                if j < before.len() {
                    assert(before[j] == encounters[j]);
                }
            }
        } else {
            if mid.fallback is None {
                assert(encounters[encounters.len() - 1].leaves_fallback());
            } else {
                let j = choose|j: int|
                    0 <= j < before.len() && (#[trigger] before[j]).leaves_fallback();
                assert(encounters[j].leaves_fallback());
            }
        }
    }
}

/// The first worker on the way that takes the request gets it: the way comes to that worker, past
/// all before it, which did not take it.
pub proof fn law_first_taker_gets_request(
    size: usize,
    start: nat,
    encounters: Seq<Encounter>,
    k: int,
)
    requires
        size > 1,
        start < size,
        encounters.len() <= size,
        first_at(encounters, |e: Encounter| e is Took, k),
    ensures
        ({
            let way = RouteView::begin(size as nat, start);
            let there = way.after_all(encounters.take(k));
            &&& route_next(there) == RouteNext::Visit(way.met(k as nat) as usize)
            &&& there.after(encounters[k]) == there
        }),
{
    let before = encounters.take(k);
    assert forall|j: int| 0 <= j < before.len() implies !(#[trigger] before[j] is Took) by {
        assert(before[j] == encounters[j]);
    }
    law_way_so_far(size as nat, start, before);
}

/// When nobody on the way takes the request, it is left to the first live worker that was passed
/// over, and there is no available worker if and only if every worker was gone or had closed its
/// queue.
pub proof fn law_fallback_gets_request(size: usize, start: nat, encounters: Seq<Encounter>)
    requires
        size > 1,
        start < size,
        encounters.len() == size,
        forall|j: int| 0 <= j < encounters.len() ==> !(#[trigger] encounters[j] is Took),
    ensures
        ({
            let way = RouteView::begin(size as nat, start);
            let end = way.after_all(encounters);
            &&& forall|k: int|
                first_at(encounters, |e: Encounter| e.leaves_fallback(), k) ==> route_next(end)
                    == RouteNext::Dispatch(#[trigger] way.met(k as nat) as usize)
            &&& route_next(end) is Unavailable <==> forall|j: int|
                0 <= j < encounters.len() ==> (#[trigger] encounters[j] is Gone
                    || encounters[j] is Closed)
        }),
{
    law_way_so_far(size as nat, start, encounters);
    let end = RouteView::begin(size as nat, start).after_all(encounters);
    if end.fallback is None {
        assert forall|j: int| 0 <= j < encounters.len() implies (#[trigger] encounters[j] is Gone
            || encounters[j] is Closed) by {
            assert(!encounters[j].leaves_fallback());
            assert(!(encounters[j] is Took));
        }
    } else {
        let j = choose|j: int|
            0 <= j < encounters.len() && (#[trigger] encounters[j]).leaves_fallback();
        assert(!(encounters[j] is Gone || encounters[j] is Closed));
    }
}

/// The way round a pool meets every worker, and none of them twice.
pub proof fn law_way_meets_every_worker_once(size: nat, start: nat, worker: nat)
    requires
        start < size,
        worker < size,
    ensures
        ({
            let way = RouteView::begin(size, start);
            &&& exists|k: nat| k < size && #[trigger] way.met(k) == worker
            &&& forall|k: nat, l: nat|
                k < size && l < size && #[trigger] way.met(k) == #[trigger] way.met(l) ==> k == l
        }),
{
    let way = RouteView::begin(size, start);
    assert forall|k: nat| k < size implies #[trigger] way.met(k) == (if start + k < size {
        (start + k) as int
    } else {
        start + k - size
    }) by {
        let n: int = size as int;
        if start + k < size {
            vstd::arithmetic::div_mod::lemma_small_mod((start + k) as nat, size);
        } else {
            vstd::arithmetic::div_mod::lemma_fundamental_div_mod_converse(
                (start + k) as int,
                n,
                1,
                start + k - n,
            );
        }
    }
    let k: nat = if start <= worker {
        (worker - start) as nat
    } else {
        (worker + size - start) as nat
    };
    assert(way.met(k) == worker);
}

} // verus!
