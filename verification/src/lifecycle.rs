//! What holds of a worker over its whole life, whatever happens to it and in whatever order.
//!
//! A worker's life is a sequence of moves. Most are its own: it takes in an event, starts
//! inference, finishes it. Others come from outside at any moment: the supervisor tells it to exit,
//! inference panics, the supervisor restarts it. [`Life::after`] says what one move does, in the
//! terms in which the contracts of [`crate::worker`] and [`crate::state`] are stated.
use tokio::sync::oneshot::Sender;
use vstd::prelude::*;

use crate::config::InnerConfig;
use crate::error::BatchinfError;
use crate::observability::InfBatchMetrics;
use crate::state::{changed, changed_once, StateChange, WorkerSnapshot, WorkerStatus, QUEUE_SPAN};
use crate::worker::{
    accumulate_step, all_sent, deadline, inference_left, inputs_of, millis_left, send_reply,
    senders_of, AccumulateEvent, BatchReport, EventKind, LoopStep, NANOS_PER_MILLI,
};

verus! {

/// What a worker is about.
pub enum Phase {
    /// It accumulates a batch.
    Collecting,
    /// Its batch has been accumulated, and it is about to look at its status.
    Ready,
    /// It runs its batch, and knows what it does next.
    Inferring(LoopStep),
    /// It has left the worker loop.
    Exited,
    /// Inference panicked.
    Crashed,
}

/// One run of inference.
pub struct Run<I, S> {
    /// The requests whose inputs inference was called with, in order.
    pub requests: Seq<(I, S)>,
    /// Whether inference panicked. Otherwise it returned, and the callers are answered.
    pub panicked: bool,
}

/// The requests of several runs, run after run.
pub open spec fn requests_of<I, S>(runs: Seq<Run<I, S>>) -> Seq<(I, S)>
    decreases runs.len(),
{
    if runs.len() == 0 {
        Seq::empty()
    } else {
        requests_of(runs.drop_last()) + runs.last().requests
    }
}

/// A worker at one moment of its life.
pub struct Life<I, S> {
    /// What it is about.
    pub phase: Phase,
    /// What its word holds.
    pub snapshot: WorkerSnapshot,
    /// The requests in its buffer.
    pub buffer: Seq<(I, S)>,
    /// When the first request of the batch came.
    pub first: u64,
    /// When the batch times out.
    pub next_inf: int,
    /// The requests that have come out of the queue, in order.
    pub received: Seq<(I, S)>,
    /// The runs of inference that have ended, in order.
    pub runs: Seq<Run<I, S>>,
}

/// A move in the life of a worker.
pub enum Move<I, S> {
    /// An event of accumulation, at a moment.
    Event(AccumulateEvent<I, S>, u64),
    /// The worker looks at its status and starts inference.
    Begin,
    /// Inference returns.
    Finish,
    /// Inference panics.
    Crash,
    /// The supervisor tells the worker to exit.
    SetExit,
    /// The supervisor restarts the worker.
    Restart,
}

impl<I, S> Life<I, S> {
    /// A worker that has just been set up.
    pub open spec fn start() -> Life<I, S> {
        Life {
            phase: Phase::Collecting,
            snapshot: WorkerSnapshot::idle(),
            buffer: Seq::empty(),
            first: 0,
            next_inf: 0,
            received: Seq::empty(),
            runs: Seq::empty(),
        }
    }

    /// Whether a move can happen now.
    ///
    /// A timer runs only from the first request of a batch on, and not out before the batch times
    /// out. The status that is seen when it runs out may be older than the current one: then it is
    /// the status that the worker had before it was told to exit.
    pub open spec fn enabled(self, m: Move<I, S>) -> bool {
        match m {
            Move::Event(AccumulateEvent::TimedOut(seen), now) => {
                &&& self.phase is Collecting
                &&& self.buffer.len() > 0
                &&& now >= self.next_inf
                &&& seen == self.snapshot.status || seen is Waiting
            },
            Move::Event(_, _) => self.phase is Collecting,
            Move::Begin => self.phase is Ready,
            Move::Finish => self.phase is Inferring,
            Move::Crash => self.phase is Inferring && self.buffer.len() > 0,
            Move::SetExit => true,
            Move::Restart => self.phase is Crashed && self.snapshot.status is Crashed,
        }
    }

    /// The runs of inference once the batch in the buffer has been run. An empty batch is not run.
    pub open spec fn runs_with_batch(self, panicked: bool) -> Seq<Run<I, S>> {
        if self.buffer.len() == 0 {
            self.runs
        } else {
            self.runs.push(Run { requests: self.buffer, panicked })
        }
    }

    /// The worker after a move that can happen.
    pub open spec fn after(self, config: InnerConfig, m: Move<I, S>) -> Life<I, S> {
        match m {
            Move::Event(event, now) => {
                let step = accumulate_step(self.buffer.len(), config.size, event.kind());
                let opens = event is Received && self.buffer.len() == 0;
                Life {
                    phase: if step.outcome is Collecting {
                        Phase::Collecting
                    } else {
                        Phase::Ready
                    },
                    snapshot: changed(self.snapshot, step.change_seq()),
                    buffer: event.joins(self.buffer),
                    received: event.joins(self.received),
                    first: if opens {
                        now
                    } else {
                        self.first
                    },
                    next_inf: if opens {
                        deadline(now, config.timeout)
                    } else {
                        self.next_inf
                    },
                    ..self
                }
            },
            Move::Begin => Life {
                phase: Phase::Inferring(LoopStep::by_status(self.snapshot.status)),
                ..self
            },
            Move::Finish => Life {
                phase: if self.phase->0 is Rearm {
                    Phase::Collecting
                } else {
                    Phase::Exited
                },
                snapshot: changed_once(self.snapshot, self.phase->0.state_change()),
                runs: self.runs_with_batch(false),
                buffer: Seq::empty(),
                ..self
            },
            Move::Crash => Life {
                phase: Phase::Crashed,
                snapshot: changed_once(self.snapshot, inference_left(true)),
                runs: self.runs_with_batch(true),
                buffer: Seq::empty(),
                ..self
            },
            Move::SetExit => Life {
                snapshot: self.snapshot.after(StateChange::Status(WorkerStatus::Exit)),
                ..self
            },
            Move::Restart => Life {
                phase: Phase::Collecting,
                snapshot: self.snapshot.after(StateChange::Reset),
                ..self
            },
        }
    }

    /// The worker after a sequence of moves. A move that cannot happen is passed over.
    pub open spec fn run(config: InnerConfig, moves: Seq<Move<I, S>>) -> Life<I, S>
        decreases moves.len(),
    {
        if moves.len() == 0 {
            Life::start()
        } else {
            let life = Life::run(config, moves.drop_last());
            if life.enabled(moves.last()) {
                life.after(config, moves.last())
            } else {
                life
            }
        }
    }

    /// What holds at every moment of a worker's life.
    pub open spec fn consistent(self, config: InnerConfig) -> bool {
        let status = self.snapshot.status;
        let queue_len = self.snapshot.queue_len;
        let buffered = self.buffer.len();
        &&& queue_len <= config.size
        &&& buffered <= config.size
        &&& self.received == requests_of(self.runs) + self.buffer
        &&& forall|i: int|
            0 <= i < self.runs.len() ==> 0 < (#[trigger] self.runs[i]).requests.len()
                <= config.size
        &&& buffered > 0 ==> self.next_inf == deadline(self.first, config.timeout)
        &&& match self.phase {
            Phase::Collecting => {
                &&& status is Waiting || status is Exit
                &&& queue_len == buffered
                &&& buffered < config.size
            },
            Phase::Ready => {
                &&& status is Running || status is Exit
                &&& queue_len == buffered
                &&& status is Running ==> buffered > 0
            },
            Phase::Inferring(next) => {
                &&& status is Exit || (status is Running && next is Rearm)
                &&& queue_len == buffered
            },
            Phase::Exited => status is Exit && buffered == 0,
            Phase::Crashed => (status is Crashed || status is Exit) && buffered == 0,
        }
    }
}

/// One more run adds its requests after those of the runs before it.
proof fn lemma_requests_of_push<I, S>(runs: Seq<Run<I, S>>, run: Run<I, S>)
    ensures
        requests_of(runs.push(run)) == requests_of(runs) + run.requests,
{
    assert(runs.push(run).drop_last() =~= runs);
}

/// A move keeps what holds at every moment.
proof fn lemma_move_keeps_consistent<I, S>(life: Life<I, S>, config: InnerConfig, m: Move<I, S>)
    requires
        0 < config.size < QUEUE_SPAN,
        life.consistent(config),
        life.enabled(m),
    ensures
        life.after(config, m).consistent(config),
{
    reveal_with_fuel(changed, 3);
    let next = life.after(config, m);
    match m {
        Move::Event(event, _) => {
            assert(next.received =~= requests_of(next.runs) + next.buffer);
        },
        Move::Finish => {
            if life.buffer.len() > 0 {
                lemma_requests_of_push(life.runs, Run { requests: life.buffer, panicked: false });
            }
            assert(next.received =~= requests_of(next.runs) + next.buffer);
        },
        Move::Crash => {
            lemma_requests_of_push(life.runs, Run { requests: life.buffer, panicked: true });
            assert(next.received =~= requests_of(next.runs) + next.buffer);
        },
        _ => {},
    }
}

/// Whatever happens to a worker, in whatever order: its queue length never exceeds the batch size,
/// and is the number of requests in its batch until inference has ended; the requests of the runs
/// of inference, run after run, and then those in the batch, are the requests that have come out of
/// the queue, in the order in which they came, so that inference is run on none of them twice; no
/// run is empty or larger than the batch size; the batch times out a batch timeout after its first
/// request; and when a batch has been accumulated, the status is `Running` or `Exit`.
///
/// The batch size is one that a word can hold beside the status.
pub proof fn law_worker_life<I, S>(config: InnerConfig, moves: Seq<Move<I, S>>)
    requires
        0 < config.size < QUEUE_SPAN,
    ensures
        Life::run(config, moves).consistent(config),
    decreases moves.len(),
{
    if moves.len() > 0 {
        law_worker_life(config, moves.drop_last());
        let life = Life::run(config, moves.drop_last());
        if life.enabled(moves.last()) {
            lemma_move_keeps_consistent(life, config, moves.last());
        }
    } else {
        assert(Life::<I, S>::start().received =~= requests_of(Life::<I, S>::start().runs)
            + Life::<I, S>::start().buffer);
    }
}

/// Whatever happens to a worker, in whatever order, and whatever its batch size is: the requests of
/// the runs of inference, run after run, and then those in the batch, are the requests that have
/// come out of the queue, in the order in which they came. No run is empty, and nothing is left in
/// the batch of a worker that has exited or crashed.
pub proof fn law_requests_are_run_in_order<I, S>(config: InnerConfig, moves: Seq<Move<I, S>>)
    ensures
        ({
            let life = Life::run(config, moves);
            &&& life.received == requests_of(life.runs) + life.buffer
            &&& forall|i: int|
                0 <= i < life.runs.len() ==> (#[trigger] life.runs[i]).requests.len() > 0
            &&& life.phase is Exited || life.phase is Crashed ==> life.buffer.len() == 0
        }),
    decreases moves.len(),
{
    let life = Life::run(config, moves);
    if moves.len() > 0 {
        law_requests_are_run_in_order(config, moves.drop_last());
        let before = Life::run(config, moves.drop_last());
        lemma_requests_of_push(before.runs, Run { requests: before.buffer, panicked: false });
        lemma_requests_of_push(before.runs, Run { requests: before.buffer, panicked: true });
    }
    assert(life.received =~= requests_of(life.runs) + life.buffer);
}

/// The queue length always fits beside the status.
proof fn lemma_snapshot_fits<I, S>(config: InnerConfig, moves: Seq<Move<I, S>>)
    ensures
        Life::run(config, moves).snapshot.fits(),
    decreases moves.len(),
{
    reveal_with_fuel(changed, 3);
    if moves.len() > 0 {
        lemma_snapshot_fits(config, moves.drop_last());
    }
}

/// At every moment of a worker's life, the queue length that its word shows is at most the batch
/// size, whatever the batch size is.
pub proof fn law_queue_len_within_batch_size<I, S>(config: InnerConfig, moves: Seq<Move<I, S>>)
    requires
        config.size > 0,
    ensures
        Life::run(config, moves).snapshot.queue_len <= config.size,
{
    if config.size < QUEUE_SPAN {
        law_worker_life(config, moves);
    } else {
        lemma_snapshot_fits(config, moves);
    }
}

/// Telling a worker to exit in the middle of the changes that an event makes to its word is the
/// same as telling it before the event.
pub proof fn law_exit_within_a_step(snapshot: WorkerSnapshot, status: WorkerStatus)
    requires
        snapshot.queue_len + 1 < QUEUE_SPAN,
    ensures
        changed(
            snapshot,
            seq![
                StateChange::Counted,
                StateChange::Status(WorkerStatus::Exit),
                StateChange::Status(status),
            ],
        ) == changed(
            snapshot,
            seq![
                StateChange::Status(WorkerStatus::Exit),
                StateChange::Counted,
                StateChange::Status(status),
            ],
        ),
{
    reveal_with_fuel(changed, 4);
    let inside = seq![
        StateChange::Counted,
        StateChange::Status(WorkerStatus::Exit),
        StateChange::Status(status),
    ];
    let before = seq![
        StateChange::Status(WorkerStatus::Exit),
        StateChange::Counted,
        StateChange::Status(status),
    ];
    crate::state::law_count_and_status_commute(snapshot, WorkerStatus::Exit);
    assert(changed(snapshot, inside) == snapshot.after(inside[0]).after(inside[1]).after(
        inside[2],
    ));
    assert(changed(snapshot, before) == snapshot.after(before[0]).after(before[1]).after(
        before[2],
    ));
}

/// Whether no inference panics.
pub open spec fn without_panics<I, S>(moves: Seq<Move<I, S>>) -> bool {
    forall|i: int| 0 <= i < moves.len() ==> !(#[trigger] moves[i] is Crash)
}

/// Where no inference panics, every run returned.
proof fn lemma_runs_return<I, S>(config: InnerConfig, moves: Seq<Move<I, S>>)
    requires
        without_panics(moves),
    ensures
        forall|i: int|
            0 <= i < Life::run(config, moves).runs.len() ==> !(#[trigger] Life::run(
                config,
                moves,
            ).runs[i]).panicked,
    decreases moves.len(),
{
    if moves.len() > 0 {
        let before = moves.drop_last();
        assert forall|i: int| 0 <= i < before.len() implies !(#[trigger] before[i] is Crash) by {
            assert(!(moves[i] is Crash));
        }
        lemma_runs_return(config, before);
        assert(!(moves[moves.len() - 1] is Crash));
    }
}

/// A worker that has exited has flushed its batch: the requests of the runs of inference, run after
/// run, are the requests that came out of its queue, in the order in which they came. No run was
/// empty, and where no inference panicked every run returned. The status is `Exit`, where the batch
/// size is one that a word can hold beside it.
pub proof fn law_exit_flushes<I, S>(config: InnerConfig, moves: Seq<Move<I, S>>)
    requires
        Life::run(config, moves).phase is Exited,
    ensures
        ({
            let life = Life::run(config, moves);
            &&& 0 < config.size < QUEUE_SPAN ==> life.snapshot.status is Exit
            &&& requests_of(life.runs) == life.received
            &&& forall|i: int|
                0 <= i < life.runs.len() ==> (#[trigger] life.runs[i]).requests.len() > 0
            &&& without_panics(moves) ==> forall|i: int|
                0 <= i < life.runs.len() ==> !(#[trigger] life.runs[i]).panicked
        }),
{
    if 0 < config.size < QUEUE_SPAN {
        law_worker_life(config, moves);
    }
    law_requests_are_run_in_order(config, moves);
    if without_panics(moves) {
        lemma_runs_return(config, moves);
    }
    let life = Life::run(config, moves);
    assert(requests_of(life.runs) + life.buffer =~= requests_of(life.runs));
}

/// A worker whose queue closes exits: at whatever point of accumulation it learns of that, it looks
/// at its status, runs what it has accumulated, and is done, with the status `Exit`.
pub proof fn law_closing_ends_the_worker<I, S>(
    config: InnerConfig,
    moves: Seq<Move<I, S>>,
    now: u64,
)
    requires
        Life::run(config, moves).phase is Collecting,
    ensures
        ({
            let before = Life::run(config, moves);
            let closed = moves.push(Move::Event(AccumulateEvent::Closed, now));
            let life = Life::run(config, closed.push(Move::Begin).push(Move::Finish));
            &&& life.phase is Exited
            &&& life.snapshot.status is Exit
            &&& life.received == before.received
            &&& requests_of(life.runs) == before.received
        }),
{
    let closed = moves.push(Move::Event(AccumulateEvent::Closed, now));
    let begun = closed.push(Move::Begin);
    let done = begun.push(Move::Finish);
    assert(closed.drop_last() =~= moves);
    assert(begun.drop_last() =~= closed);
    assert(done.drop_last() =~= begun);
    assert(Life::run(config, moves).enabled(closed.last()));
    assert(Life::run(config, closed).phase is Ready);
    reveal_with_fuel(changed, 3);
    assert(Life::run(config, closed).snapshot.status is Exit);
    assert(Life::run(config, begun).phase == Phase::Inferring(LoopStep::Leave));
    law_exit_flushes(config, done);
}

/// A worker whose batch has been accumulated looks at its status and runs the batch. When inference
/// returns, the worker accumulates the next batch if its status was `Running`, and has exited
/// otherwise.
pub proof fn law_worker_goes_on_after_a_batch<I, S>(config: InnerConfig, moves: Seq<Move<I, S>>)
    requires
        Life::run(config, moves).phase is Ready,
    ensures
        ({
            let before = Life::run(config, moves);
            let life = Life::run(config, moves.push(Move::Begin).push(Move::Finish));
            &&& life.phase is Collecting <==> before.snapshot.status is Running
            &&& life.phase is Exited <==> !(before.snapshot.status is Running)
            &&& life.received == before.received
            &&& requests_of(life.runs) == before.received
        }),
{
    let begun = moves.push(Move::Begin);
    let done = begun.push(Move::Finish);
    assert(begun.drop_last() =~= moves);
    assert(done.drop_last() =~= begun);
    law_requests_are_run_in_order(config, done);
    assert(Life::run(config, begun).phase is Inferring);
    let life = Life::run(config, done);
    assert(life.buffer == Seq::<(I, S)>::empty());
    assert(requests_of(life.runs) + life.buffer =~= requests_of(life.runs));
}

/// The senders that reports answer, report after report.
pub open spec fn answered<O, E, S>(reports: Seq<BatchReport<O, E, S>>) -> Seq<S>
    decreases reports.len(),
{
    if reports.len() == 0 {
        Seq::empty()
    } else {
        answered(reports.drop_last()) + reports.last().replies@.map_values(
            |reply: (S, Result<O, BatchinfError<E>>)| reply.0,
        )
    }
}

/// Every caller gets one answer: when each run returned something, and was reported on by it, the
/// senders that are answered, run after run, are those of the requests that were run, in order.
pub proof fn law_every_caller_answered_once<I, O, E: Clone, S>(
    runs: Seq<Run<I, S>>,
    outputs: Seq<Result<Vec<O>, E>>,
    metrics: Seq<InfBatchMetrics>,
    reports: Seq<BatchReport<O, E, S>>,
)
    requires
        outputs.len() == runs.len(),
        metrics.len() == runs.len(),
        reports.len() == runs.len(),
        forall|i: int|
            0 <= i < runs.len() ==> (#[trigger] reports[i]).answers(
                outputs[i],
                senders_of(runs[i].requests),
                metrics[i],
            ),
    ensures
        answered(reports) == senders_of(requests_of(runs)),
    decreases runs.len(),
{
    if runs.len() > 0 {
        let n = runs.len() - 1;
        assert forall|i: int| 0 <= i < n implies (#[trigger] reports.drop_last()[i]).answers(
            outputs.drop_last()[i],
            senders_of(runs.drop_last()[i].requests),
            metrics.drop_last()[i],
        ) by {
            assert(reports[i].answers(outputs[i], senders_of(runs[i].requests), metrics[i]));
        }
        law_every_caller_answered_once(
            runs.drop_last(),
            outputs.drop_last(),
            metrics.drop_last(),
            reports.drop_last(),
        );
        let last = reports[n];
        assert(last.answers(outputs[n], senders_of(runs[n].requests), metrics[n]));
        assert(last.replies@.map_values(|reply: (S, Result<O, BatchinfError<E>>)| reply.0)
            =~= senders_of(runs[n].requests));
        assert(senders_of(requests_of(runs)) =~= senders_of(requests_of(runs.drop_last()))
            + senders_of(runs[n].requests));
    } else {
        assert(senders_of(requests_of(runs)) =~= Seq::<S>::empty());
    }
}

/// Where no inference panics, a worker that has exited has answered every caller whose request came
/// out of its queue, each once and in the order in which the requests came.
pub proof fn law_exited_worker_has_answered_everybody<I, O, E: Clone, S>(
    config: InnerConfig,
    moves: Seq<Move<I, S>>,
    outputs: Seq<Result<Vec<O>, E>>,
    metrics: Seq<InfBatchMetrics>,
    reports: Seq<BatchReport<O, E, S>>,
)
    requires
        without_panics(moves),
        Life::run(config, moves).phase is Exited,
        outputs.len() == Life::run(config, moves).runs.len(),
        metrics.len() == Life::run(config, moves).runs.len(),
        reports.len() == Life::run(config, moves).runs.len(),
        forall|i: int|
            0 <= i < reports.len() ==> (#[trigger] reports[i]).answers(
                outputs[i],
                senders_of(Life::run(config, moves).runs[i].requests),
                metrics[i],
            ),
    ensures
        answered(reports) == senders_of(Life::run(config, moves).received),
{
    law_exit_flushes(config, moves);
    law_every_caller_answered_once(Life::run(config, moves).runs, outputs, metrics, reports);
}

impl<I, S> Life<I, S> {
    /// Whether a move is one of the worker itself, whose queue yields `messages` in order and is
    /// then closed: nobody else changes its status, and inference does not panic.
    pub open spec fn own_move(self, messages: Seq<(I, S)>, m: Move<I, S>) -> bool {
        match m {
            Move::Event(AccumulateEvent::Received(input, sender), _) => {
                &&& self.received.len() < messages.len()
                &&& messages[self.received.len() as int] == (input, sender)
            },
            Move::Event(AccumulateEvent::Closed, _) => self.received.len() == messages.len(),
            Move::Event(AccumulateEvent::TimedOut(seen), _) => seen == self.snapshot.status,
            Move::Begin => true,
            Move::Finish => true,
            Move::Crash => false,
            Move::SetExit => false,
            Move::Restart => false,
        }
    }

    /// Whether every move is one of the worker itself, and happens when it can.
    pub open spec fn undisturbed(
        config: InnerConfig,
        messages: Seq<(I, S)>,
        moves: Seq<Move<I, S>>,
    ) -> bool
        decreases moves.len(),
    {
        moves.len() > 0 ==> {
            let life = Life::run(config, moves.drop_last());
            &&& Life::undisturbed(config, messages, moves.drop_last())
            &&& life.enabled(moves.last())
            &&& life.own_move(messages, moves.last())
        }
    }

    /// What holds at every moment of an undisturbed life.
    pub open spec fn steady(self, config: InnerConfig, messages: Seq<(I, S)>) -> bool {
        let status = self.snapshot.status;
        let drained = self.received.len() == messages.len();
        let buffered = self.buffer.len();
        &&& self.received.len() <= messages.len()
        &&& self.received == messages.take(self.received.len() as int)
        &&& buffered <= self.received.len()
        &&& buffered <= config.size
        &&& forall|i: int|
            0 <= i < self.runs.len() ==> {
                &&& 0 < (#[trigger] self.runs[i]).requests.len() <= config.size
                &&& !self.runs[i].panicked
            }
        &&& match self.phase {
            Phase::Collecting => {
                &&& status is Waiting
                &&& self.snapshot.queue_len == buffered
                &&& buffered < config.size
            },
            Phase::Ready => (status is Running && buffered > 0) || (status is Exit && drained),
            Phase::Inferring(next) => if next is Rearm {
                status is Running && buffered > 0
            } else {
                status is Exit && drained
            },
            Phase::Exited => status is Exit && drained,
            Phase::Crashed => false,
        }
    }

    /// A bound on the number of moves that an undisturbed worker can still make.
    pub open spec fn moves_left(self, messages: Seq<(I, S)>) -> int {
        4 * (messages.len() - self.received.len()) + match self.phase {
            Phase::Collecting => if self.buffer.len() == 0 {
                3int
            } else {
                6int
            },
            Phase::Ready => if self.snapshot.status is Exit {
                2int
            } else {
                5int
            },
            Phase::Inferring(next) => if next is Leave {
                1int
            } else {
                4int
            },
            Phase::Exited => 0int,
            Phase::Crashed => 0int,
        }
    }
}

/// A move of the worker itself keeps what holds in an undisturbed life, and leaves fewer moves to
/// make.
proof fn lemma_own_move<I, S>(
    life: Life<I, S>,
    config: InnerConfig,
    messages: Seq<(I, S)>,
    m: Move<I, S>,
)
    requires
        config.size > 0,
        config.size < QUEUE_SPAN || messages.len() < QUEUE_SPAN,
        life.steady(config, messages),
        life.enabled(m),
        life.own_move(messages, m),
    ensures
        life.after(config, m).steady(config, messages),
        life.after(config, m).moves_left(messages) < life.moves_left(messages),
{
    reveal_with_fuel(changed, 3);
    let next = life.after(config, m);
    assert(next.received =~= messages.take(next.received.len() as int));
}

/// An undisturbed life is steady, and its moves and those that are left are no more than those that
/// were left at its start.
proof fn lemma_undisturbed<I, S>(
    config: InnerConfig,
    messages: Seq<(I, S)>,
    moves: Seq<Move<I, S>>,
)
    requires
        config.size > 0,
        config.size < QUEUE_SPAN || messages.len() < QUEUE_SPAN,
        Life::undisturbed(config, messages, moves),
    ensures
        Life::run(config, moves).steady(config, messages),
        Life::run(config, moves).moves_left(messages) + moves.len() <= 4 * messages.len() + 3,
    decreases moves.len(),
{
    if moves.len() > 0 {
        lemma_undisturbed(config, messages, moves.drop_last());
        lemma_own_move(
            Life::run(config, moves.drop_last()),
            config,
            messages,
            moves.last(),
        );
    } else {
        assert(Life::<I, S>::start().received =~= messages.take(0));
    }
}

/// A worker whose queue yields `messages` and is then closed comes to its end, when nobody else
/// changes its status and inference does not panic. Whatever the order of its moves, they are at
/// most four for each message and three; and as long as it has not exited, it can make another.
///
/// Either the batch size is one that a word can hold beside the status, or the number of messages
/// is.
pub proof fn law_worker_loop_ends<I, S>(
    config: InnerConfig,
    messages: Seq<(I, S)>,
    moves: Seq<Move<I, S>>,
)
    requires
        config.size > 0,
        config.size < QUEUE_SPAN || messages.len() < QUEUE_SPAN,
        Life::undisturbed(config, messages, moves),
    ensures
        moves.len() <= 4 * messages.len() + 3,
        Life::run(config, moves).phase is Exited || exists|m: Move<I, S>|
            #[trigger] Life::undisturbed(config, messages, moves.push(m)),
{
    lemma_undisturbed(config, messages, moves);
    let life = Life::run(config, moves);
    let m = match life.phase {
        Phase::Collecting => if life.received.len() < messages.len() {
            let (input, sender) = messages[life.received.len() as int];
            Move::Event(AccumulateEvent::Received(input, sender), 0)
        } else {
            Move::Event(AccumulateEvent::Closed, 0)
        },
        Phase::Ready => Move::Begin,
        _ => Move::Finish,
    };
    assert(moves.push(m).drop_last() =~= moves);
    if !(life.phase is Exited) {
        assert(Life::undisturbed(config, messages, moves.push(m)));
    }
}

/// When such a worker has come to its end, inference was called on non-empty batches, none larger
/// than the batch size, whose inputs, batch after batch, are those of `messages` in order; every
/// caller was answered once; and the status is `Exit`.
pub proof fn law_worker_loop_serves_everybody<I, O, E: Clone, S>(
    config: InnerConfig,
    messages: Seq<(I, S)>,
    moves: Seq<Move<I, S>>,
    outputs: Seq<Result<Vec<O>, E>>,
    metrics: Seq<InfBatchMetrics>,
    reports: Seq<BatchReport<O, E, S>>,
)
    requires
        config.size > 0,
        config.size < QUEUE_SPAN || messages.len() < QUEUE_SPAN,
        Life::undisturbed(config, messages, moves),
        Life::run(config, moves).phase is Exited,
        outputs.len() == Life::run(config, moves).runs.len(),
        metrics.len() == Life::run(config, moves).runs.len(),
        reports.len() == Life::run(config, moves).runs.len(),
        forall|i: int|
            0 <= i < reports.len() ==> (#[trigger] reports[i]).answers(
                outputs[i],
                senders_of(Life::run(config, moves).runs[i].requests),
                metrics[i],
            ),
    ensures
        ({
            let life = Life::run(config, moves);
            &&& forall|i: int|
                0 <= i < life.runs.len() ==> {
                    &&& 0 < (#[trigger] life.runs[i]).requests.len() <= config.size
                    &&& !life.runs[i].panicked
                }
            &&& inputs_of(requests_of(life.runs)) == inputs_of(messages)
            &&& answered(reports) == senders_of(messages)
            &&& life.snapshot.status is Exit
        }),
{
    lemma_undisturbed(config, messages, moves);
    law_exit_flushes(config, moves);
    let life = Life::run(config, moves);
    assert(messages.take(messages.len() as int) =~= messages);
    law_every_caller_answered_once(life.runs, outputs, metrics, reports);
}

/// A worker that has crashed and is restarted is idle again.
pub proof fn law_restart_is_idle<I, S>(config: InnerConfig, moves: Seq<Move<I, S>>)
    requires
        0 < config.size < QUEUE_SPAN,
        Life::run(config, moves).enabled(Move::Restart),
    ensures
        Life::run(config, moves.push(Move::Restart)).snapshot == WorkerSnapshot::idle(),
        Life::run(config, moves.push(Move::Restart)).phase is Collecting,
        Life::run(config, moves.push(Move::Restart)).buffer == Seq::<(I, S)>::empty(),
{
    law_worker_life(config, moves);
    assert(moves.push(Move::Restart).drop_last() =~= moves);
    assert(Life::run(config, moves).buffer =~= Seq::<(I, S)>::empty());
}

/// A batch fires at the first of two occurrences: a request that brings it to the batch size fires
/// it at once, and no batch that is smaller fires before its timer has run out or its queue has
/// closed.
pub proof fn law_fires_at_first_occurrence(buffered: nat, config: InnerConfig, event: EventKind)
    requires
        buffered < config.size,
    ensures
        event is Received && buffered + 1 == config.size ==> accumulate_step(
            buffered,
            config.size,
            event,
        ).outcome is Fire,
        event is Received && buffered + 1 < config.size ==> accumulate_step(
            buffered,
            config.size,
            event,
        ).outcome is Collecting,
        event == EventKind::TimedOut(WorkerStatus::Waiting) && buffered > 0 ==> accumulate_step(
            buffered,
            config.size,
            event,
        ).outcome is Fire,
        event is Closed ==> accumulate_step(buffered, config.size, event).outcome is Exited,
{
}

/// The wait for the next request ends when the batch times out: never before it, and less than a
/// millisecond after it. So a timer that runs for at least the time that it is set for runs out no
/// earlier than a batch timeout after the first request. The wait is never longer than the batch
/// timeout, and there is none once the batch has timed out.
pub proof fn law_wait_ends_at_deadline(first: u64, timeout: u64, now: u64, woken: int)
    requires
        first <= now,
    ensures
        ({
            let millis = millis_left(deadline(first, timeout), now as int);
            &&& 0 <= millis <= timeout
            &&& now + millis * NANOS_PER_MILLI >= deadline(first, timeout)
            &&& now <= deadline(first, timeout) ==> now + millis * NANOS_PER_MILLI < deadline(
                first,
                timeout,
            ) + NANOS_PER_MILLI
            &&& now >= deadline(first, timeout) ==> millis == 0
            &&& woken >= now + millis * NANOS_PER_MILLI ==> woken >= first + timeout
                * NANOS_PER_MILLI
        }),
{
    let ts = deadline(first, timeout);
    if ts > now {
        let left = (ts - now + NANOS_PER_MILLI - 1) / NANOS_PER_MILLI as int;
        assert(left <= timeout) by (nonlinear_arith)
            requires
                left == (ts - now + 1_000_000 - 1) / 1_000_000,
                ts - now <= timeout * 1_000_000,
        ;
    }
}

/// A batch that fires because it timed out fires no earlier than a batch timeout after its first
/// request.
pub proof fn law_no_batch_times_out_early<I, S>(
    config: InnerConfig,
    moves: Seq<Move<I, S>>,
    seen: WorkerStatus,
    now: u64,
)
    requires
        0 < config.size < QUEUE_SPAN,
        Life::run(config, moves).enabled(Move::Event(AccumulateEvent::TimedOut(seen), now)),
    ensures
        now >= Life::run(config, moves).first + config.timeout * NANOS_PER_MILLI,
{
    law_worker_life(config, moves);
}

/// When inference gives one output for each request, every caller is told the output at the
/// position of its own request.
pub proof fn law_outputs_follow_requests<I, O, E: Clone, S>(
    requests: Seq<(I, S)>,
    batch: Vec<O>,
    metrics: InfBatchMetrics,
    report: BatchReport<O, E, S>,
)
    requires
        batch@.len() == requests.len(),
        report.answers(Ok(batch), senders_of(requests), metrics),
    ensures
        report.replies@.len() == requests.len(),
        forall|k: int|
            0 <= k < requests.len() ==> (#[trigger] report.replies@[k]).0 == requests[k].1
                && crate::batcher::received(Ok(report.replies@[k].1)) == Ok::<
                O,
                BatchinfError<E>,
            >(batch@[k]),
{
}

/// When inference gives a wrong number of outputs, every caller of the batch is told so, and nobody
/// is given an output that may belong to somebody else.
pub proof fn law_wrong_number_of_outputs_reaches_every_caller<I, O, E: Clone, S>(
    requests: Seq<(I, S)>,
    batch: Vec<O>,
    metrics: InfBatchMetrics,
    report: BatchReport<O, E, S>,
)
    requires
        batch@.len() != requests.len(),
        report.answers(Ok(batch), senders_of(requests), metrics),
    ensures
        report.replies@.len() == requests.len(),
        forall|k: int|
            0 <= k < requests.len() ==> (#[trigger] report.replies@[k]).0 == requests[k].1
                && crate::batcher::received(Ok(report.replies@[k].1)) == Err::<
                O,
                BatchinfError<E>,
            >(BatchinfError::InvalidPredictorOutput),
{
}

/// When inference gives an error, every caller of the batch is told a clone of it.
pub proof fn law_error_reaches_every_caller<I, O, E: Clone, S>(
    requests: Seq<(I, S)>,
    error: E,
    metrics: InfBatchMetrics,
    report: BatchReport<O, E, S>,
)
    requires
        report.answers(Err(error), senders_of(requests), metrics),
    ensures
        report.replies@.len() == requests.len(),
        forall|k: int|
            0 <= k < requests.len() ==> (#[trigger] report.replies@[k]).0 == requests[k].1 && {
                let told: Result<O, BatchinfError<E>> = crate::batcher::received(
                    Ok(report.replies@[k].1),
                );
                told matches Err(BatchinfError::InferenceError(copy)) && cloned(error, copy)
            },
{
}

/// A caller that gives up changes nothing for the others: whichever answers are not received, the
/// answer of every request is sent to its own caller, and is what inference makes of its own input.
pub proof fn law_giving_up_changes_nothing_for_others<I, O, E: Clone>(
    requests: Seq<(I, Sender<Result<O, BatchinfError<E>>>)>,
    infer: spec_fn(I) -> O,
    batch: Vec<O>,
    metrics: InfBatchMetrics,
    report: BatchReport<O, E, Sender<Result<O, BatchinfError<E>>>>,
    outcomes: Seq<Result<(), Result<O, BatchinfError<E>>>>,
)
    requires
        batch@ == inputs_of(requests).map_values(infer),
        report.answers(Ok(batch), senders_of(requests), metrics),
        all_sent(report.replies@, outcomes),
    ensures
        outcomes.len() == requests.len(),
        forall|k: int|
            0 <= k < requests.len() ==> call_ensures(
                send_reply::<Result<O, BatchinfError<E>>>,
                ((#[trigger] requests[k]).1, Ok(infer(requests[k].0))),
                outcomes[k],
            ),
{
    assert forall|k: int| 0 <= k < requests.len() implies call_ensures(
        send_reply::<Result<O, BatchinfError<E>>>,
        ((#[trigger] requests[k]).1, Ok(infer(requests[k].0))),
        outcomes[k],
    ) by {
        let reply = report.replies@[k];
        assert(reply.0 == senders_of(requests)[k]);
        assert(reply.1 == Ok::<O, BatchinfError<E>>(batch@[k]));
    }
}

} // verus!
