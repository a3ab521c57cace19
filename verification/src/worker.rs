//! One inference worker: how it accumulates a batch, runs it and answers its callers.
//!
//! A worker waits for the first request of a batch without a deadline. The first request starts
//! the timer of the batch; later ones do not. The batch fires when it is full or when its timer
//! runs out, and the worker starts over. When its queue closes, the worker flushes what it has
//! accumulated and exits.
//!
//! Time is counted in nanoseconds from some moment before the worker started.
use tokio::sync::oneshot::Sender;
use vstd::prelude::*;

use crate::config::InnerConfig;
use crate::error::BatchinfError;
use crate::observability::{BatchMetric, BatchTrigger, InfBatchMetrics};
use crate::predictor::Predictor;
use crate::state::{StateChange, WorkerStatus};

verus! {

/// Nanoseconds in a millisecond.
pub const NANOS_PER_MILLI: u64 = 1_000_000;

/// The requests of one batch, in the order in which they arrived: the inputs side by side, so that
/// inference can take them as one slice, and beside each the sender that answers its caller.
pub struct WorkerBuffer<I, S> {
    sender_buffer: Vec<S>,
    input_buffer: Vec<I>,
}

/// The inputs of a sequence of requests.
pub open spec fn inputs_of<I, S>(requests: Seq<(I, S)>) -> Seq<I> {
    requests.map_values(|request: (I, S)| request.0)
}

/// The senders of a sequence of requests.
pub open spec fn senders_of<I, S>(requests: Seq<(I, S)>) -> Seq<S> {
    requests.map_values(|request: (I, S)| request.1)
}

impl<I, S> WorkerBuffer<I, S> {
    /// Every input has its sender.
    pub closed spec fn wf(&self) -> bool {
        self.input_buffer@.len() == self.sender_buffer@.len()
    }

    /// The requests, in the order in which they arrived.
    pub closed spec fn view(&self) -> Seq<(I, S)> {
        Seq::new(self.input_buffer@.len(), |i: int| (self.input_buffer@[i], self.sender_buffer@[i]))
    }

    /// An empty buffer with room for a batch.
    pub fn with_capacity(capacity: usize) -> (buffer: WorkerBuffer<I, S>)
        ensures
            buffer.wf(),
            buffer@ == Seq::<(I, S)>::empty(),
    {
        let buffer = WorkerBuffer {
            sender_buffer: Vec::with_capacity(capacity),
            input_buffer: Vec::with_capacity(capacity),
        };
        assert(buffer@ =~= Seq::<(I, S)>::empty());
        buffer
    }

    /// Adds a request.
    pub fn push(&mut self, data: (I, S))
        requires
            old(self).wf(),
        ensures
            final(self).wf(),
            final(self)@ == old(self)@.push(data),
    {
        let (input, sender) = data;
        self.sender_buffer.push(sender);
        self.input_buffer.push(input);
        assert(self@ =~= old(self)@.push(data));
    }

    /// The number of requests.
    pub fn len(&self) -> (len: usize)
        requires
            self.wf(),
        ensures
            len == self@.len(),
    {
        self.input_buffer.len()
    }

    /// Whether there is no request.
    pub fn is_empty(&self) -> (empty: bool)
        requires
            self.wf(),
        ensures
            empty == (self@.len() == 0),
    {
        self.input_buffer.is_empty()
    }

    /// The inputs, side by side.
    pub fn input(&self) -> (inputs: &[I])
        requires
            self.wf(),
        ensures
            inputs@ == inputs_of(self@),
    {
        assert(self.input_buffer@ =~= inputs_of(self@));
        self.input_buffer.as_slice()
    }

    /// Empties the buffer and hands out the senders, which answering consumes.
    pub fn clear_and_take_senders(&mut self) -> (senders: Vec<S>)
        requires
            old(self).wf(),
        ensures
            final(self).wf(),
            final(self)@ == Seq::<(I, S)>::empty(),
            senders@ == senders_of(old(self)@),
    {
        assert(self.sender_buffer@ =~= senders_of(self@));
        let room: usize = self.sender_buffer.len();
        self.input_buffer.clear();
        let mut senders = Vec::with_capacity(room);
        std::mem::swap(&mut self.sender_buffer, &mut senders);
        assert(self@ =~= Seq::<(I, S)>::empty());
        senders
    }
}

/// When a batch times out whose first request came at `now`.
pub open spec fn deadline(now: u64, timeout: u64) -> int {
    now + timeout * NANOS_PER_MILLI
}

/// The milliseconds to wait from `now` so that `ts` has come: a part of a millisecond counts as a
/// whole one, and there are none once `ts` has passed. What does not fit into 64 bits is cut off.
pub open spec fn millis_left(ts: int, now: int) -> int {
    if ts <= now {
        0
    } else {
        ((ts - now + NANOS_PER_MILLI - 1) / NANOS_PER_MILLI as int) % 0x1_0000_0000_0000_0000
    }
}

/// Whether the time from `now` until `ts` is one that 64 bits can hold in milliseconds.
pub open spec fn within_reach(ts: int, now: int) -> bool {
    ts - now <= u64::MAX * NANOS_PER_MILLI
}

/// Starts the timer of a batch.
pub fn reset_next_inf(ts: &mut u128, now: u64, timeout: u64)
    ensures
        *final(ts) == deadline(now, timeout),
{
    assert(timeout * NANOS_PER_MILLI <= u64::MAX * NANOS_PER_MILLI) by (nonlinear_arith)
        requires
            timeout <= u64::MAX,
    ;
    *ts = now as u128 + timeout as u128 * NANOS_PER_MILLI as u128;
}

/// The remaining time of a batch, in milliseconds. Whoever waits for that long does not wake before
/// the batch times out, and wakes less than a millisecond after.
pub fn time_until_timeout(ts: u128, now: u64) -> (millis: u64)
    ensures
        millis == millis_left(ts as int, now as int),
        within_reach(ts as int, now as int) ==> now + millis * NANOS_PER_MILLI >= ts,
        now <= ts ==> now + millis * NANOS_PER_MILLI < ts + NANOS_PER_MILLI,
{
    let now: u128 = now as u128;
    if ts <= now {
        0
    } else {
        let unit: u128 = NANOS_PER_MILLI as u128;
        let whole: u128 = (ts - now) / unit;
        let left: u128 = if (ts - now) % unit == 0 {
            whole
        } else {
            whole + 1
        };
        assert(left == (ts - now + NANOS_PER_MILLI - 1) / NANOS_PER_MILLI as int);
        assert(left as u64 == left % 0x1_0000_0000_0000_0000u128) by (bit_vector);
        left as u64
    }
}

/// What happened while a worker was accumulating a batch.
pub enum AccumulateEvent<I, S> {
    /// A request came out of the queue, with the sender that answers it.
    Received(I, S),
    /// The queue is closed and drained: no request will come any more.
    Closed,
    /// The timer of the batch ran out, and the worker's status was seen to be the one given.
    TimedOut(WorkerStatus),
}

/// An [`AccumulateEvent`] without the request that it carries.
pub enum EventKind {
    /// A request came out of the queue.
    Received,
    /// The queue is closed and drained.
    Closed,
    /// The timer of the batch ran out.
    TimedOut(WorkerStatus),
}

impl<I, S> AccumulateEvent<I, S> {
    /// The event without its request.
    pub open spec fn kind(self) -> EventKind {
        match self {
            AccumulateEvent::Received(_, _) => EventKind::Received,
            AccumulateEvent::Closed => EventKind::Closed,
            AccumulateEvent::TimedOut(status) => EventKind::TimedOut(status),
        }
    }

    /// The requests of the batch after the event.
    pub open spec fn joins(self, requests: Seq<(I, S)>) -> Seq<(I, S)> {
        match self {
            AccumulateEvent::Received(input, sender) => requests.push((input, sender)),
            _ => requests,
        }
    }
}

/// How accumulation goes on after an event.
#[derive(Debug, Clone, Copy, PartialEq, Eq, Structural)]
pub enum Accumulated {
    /// The batch is still open.
    Collecting,
    /// The batch fires, with this many requests. The status becomes `Running`.
    Fire(BatchTrigger, usize),
    /// No more requests will come. The status becomes `Exit`.
    Exited,
    /// The batch timed out, but somebody else has changed the status, which stays as it is.
    Interrupted,
}

/// What an event means for the worker's state.
#[derive(Debug, Clone, Copy, PartialEq, Eq, Structural)]
pub struct AccumulateStep {
    /// Whether a request joined the batch, which the queue length then counts.
    pub counted: bool,
    /// How accumulation goes on.
    pub outcome: Accumulated,
}

impl AccumulateStep {
    /// The status that the worker takes on, if it changes.
    pub open spec fn new_status(self) -> Option<WorkerStatus> {
        match self.outcome {
            Accumulated::Fire(_, _) => Some(WorkerStatus::Running),
            Accumulated::Exited => Some(WorkerStatus::Exit),
            Accumulated::Collecting => None,
            Accumulated::Interrupted => None,
        }
    }

    /// The changes of the worker's word, in the order in which they are made.
    pub open spec fn change_seq(self) -> Seq<StateChange> {
        let counted = if self.counted {
            seq![StateChange::Counted]
        } else {
            seq![]
        };
        match self.new_status() {
            Some(status) => counted.push(StateChange::Status(status)),
            None => counted,
        }
    }

    /// The changes of the worker's word, in the order in which they are made.
    pub fn changes(&self) -> (changes: Vec<StateChange>)
        ensures
            changes@ == self.change_seq(),
    {
        let mut changes: Vec<StateChange> = Vec::new();
        if self.counted {
            changes.push(StateChange::Counted);
        }
        match self.outcome {
            Accumulated::Fire(_, _) => changes.push(StateChange::Status(WorkerStatus::Running)),
            Accumulated::Exited => changes.push(StateChange::Status(WorkerStatus::Exit)),
            Accumulated::Collecting => {},
            Accumulated::Interrupted => {},
        }
        assert(changes@ =~= self.change_seq());
        changes
    }
}

/// What an event does to a batch of `buffered` requests whose size is limited to `size`.
pub open spec fn accumulate_step(buffered: nat, size: u64, event: EventKind) -> AccumulateStep {
    match event {
        EventKind::Received => AccumulateStep {
            counted: true,
            outcome: if buffered + 1 == size {
                Accumulated::Fire(BatchTrigger::Capacity, (buffered + 1) as usize)
            } else {
                Accumulated::Collecting
            },
        },
        EventKind::Closed => AccumulateStep { counted: false, outcome: Accumulated::Exited },
        EventKind::TimedOut(status) => AccumulateStep {
            counted: false,
            outcome: if status is Waiting && buffered > 0 {
                Accumulated::Fire(BatchTrigger::Timeout, buffered as usize)
            } else {
                Accumulated::Interrupted
            },
        },
    }
}

/// How long to wait for the next request, in milliseconds: for as long as it takes while the batch
/// is empty, and until the batch times out from its first request on.
pub fn next_wait<I, S>(buffer: &WorkerBuffer<I, S>, next_inf: u128, now: u64) -> (millis: Option<
    u64,
>)
    requires
        buffer.wf(),
    ensures
        millis is None <==> buffer@.len() == 0,
        millis matches Some(m) ==> {
            &&& m == millis_left(next_inf as int, now as int)
            &&& within_reach(next_inf as int, now as int) ==> now + m * NANOS_PER_MILLI >= next_inf
        },
{
    if buffer.is_empty() {
        None
    } else {
        Some(time_until_timeout(next_inf, now))
    }
}

/// Takes in one event of the accumulation of a batch.
///
/// The first request of a batch starts the batch timer. A request that fills the batch fires it.
/// When the timer runs out, the batch fires unless the status has been changed: a worker that was
/// told to exit keeps that status, and its batch is run all the same.
pub fn accumulate_next_batch<I, S>(
    buffer: &mut WorkerBuffer<I, S>,
    next_inf: &mut u128,
    config: InnerConfig,
    event: AccumulateEvent<I, S>,
    now: u64,
) -> (step: AccumulateStep)
    requires
        old(buffer).wf(),
    ensures
        final(buffer).wf(),
        final(buffer)@ == event.joins(old(buffer)@),
        *final(next_inf) == (if event is Received && old(buffer)@.len() == 0 {
            deadline(now, config.timeout)
        } else {
            *old(next_inf) as int
        }),
        step == accumulate_step(old(buffer)@.len(), config.size, event.kind()),
{
    match event {
        AccumulateEvent::Received(input, sender) => {
            if buffer.is_empty() {
                reset_next_inf(next_inf, now, config.timeout);
            }
            buffer.push((input, sender));
            let len: usize = buffer.len();
            let outcome = if len as u64 == config.size {
                Accumulated::Fire(BatchTrigger::Capacity, len)
            } else {
                Accumulated::Collecting
            };
            AccumulateStep { counted: true, outcome }
        },
        AccumulateEvent::Closed => AccumulateStep { counted: false, outcome: Accumulated::Exited },
        AccumulateEvent::TimedOut(status) => {
            let outcome = if matches!(status, WorkerStatus::Waiting) && !buffer.is_empty() {
                Accumulated::Fire(BatchTrigger::Timeout, buffer.len())
            } else {
                Accumulated::Interrupted
            };
            AccumulateStep { counted: false, outcome }
        },
    }
}

/// What a worker does once its batch has been accumulated. Either way it runs the batch.
#[derive(Debug, Clone, Copy, PartialEq, Eq, Structural)]
pub enum LoopStep {
    /// Reset the state and accumulate the next batch.
    Rearm,
    /// Leave the worker loop.
    Leave,
}

impl LoopStep {
    /// What follows accumulation, by the status that the worker then has.
    pub open spec fn by_status(status: WorkerStatus) -> LoopStep {
        if status is Running {
            LoopStep::Rearm
        } else {
            LoopStep::Leave
        }
    }

    /// The change of the worker's word once its batch has been run.
    pub open spec fn state_change(self) -> Option<StateChange> {
        match self {
            LoopStep::Rearm => Some(StateChange::Reset),
            LoopStep::Leave => None,
        }
    }

    /// The change of the worker's word once its batch has been run.
    pub fn change(&self) -> (change: Option<StateChange>)
        ensures
            change == self.state_change(),
    {
        match self {
            LoopStep::Rearm => Some(StateChange::Reset),
            LoopStep::Leave => None,
        }
    }
}

/// What follows accumulation, by the status that the worker then has. It is never `Waiting` then,
/// and a worker never sees itself crashed.
pub fn after_accumulation(status: WorkerStatus) -> (step: LoopStep)
    requires
        status is Running || status is Exit,
    ensures
        step == LoopStep::by_status(status),
        step is Leave <==> status is Exit,
{
    match status {
        WorkerStatus::Running => LoopStep::Rearm,
        _ => LoopStep::Leave,
    }
}

/// The change of the worker's word when inference is left: by a panic, or not.
pub open spec fn inference_left(panicking: bool) -> Option<StateChange> {
    if panicking {
        Some(StateChange::Status(WorkerStatus::Crashed))
    } else {
        None
    }
}

/// The change of the worker's word when inference is left: by a panic, or not.
pub fn after_inference(panicking: bool) -> (change: Option<StateChange>)
    ensures
        change == inference_left(panicking),
{
    if panicking {
        Some(StateChange::Status(WorkerStatus::Crashed))
    } else {
        None
    }
}

/// What becomes of the callers of a batch.
pub struct BatchReport<O, E, S> {
    /// The metric to emit, before anybody is answered.
    pub metric: BatchMetric,
    /// Each sender with the answer to send through it.
    pub replies: Vec<(S, Result<O, BatchinfError<E>>)>,
}

impl<O, E, S> BatchReport<O, E, S> {
    /// Whether the report answers `senders`, each once and in order, by what inference gave. When
    /// there is one output for each of them, everybody gets the one at its position. When there are
    /// more or fewer outputs, nobody is given any of them. When there is an error, everybody gets a
    /// clone of it.
    pub open spec fn answers(
        self,
        output: Result<Vec<O>, E>,
        senders: Seq<S>,
        metrics: InfBatchMetrics,
    ) -> bool where E: Clone {
        &&& self.replies@.len() == senders.len()
        &&& forall|i: int| 0 <= i < senders.len() ==> (#[trigger] self.replies@[i]).0 == senders[i]
        &&& match output {
            Ok(batch) => if batch@.len() == senders.len() {
                &&& self.metric == BatchMetric::CompleteOk(metrics)
                &&& forall|i: int|
                    0 <= i < senders.len() ==> (#[trigger] self.replies@[i]).1 == Ok::<
                        O,
                        BatchinfError<E>,
                    >(batch@[i])
            } else {
                &&& self.metric == BatchMetric::CompleteErr(metrics.size)
                &&& forall|i: int|
                    0 <= i < senders.len() ==> (#[trigger] self.replies@[i]).1 == Err::<
                        O,
                        BatchinfError<E>,
                    >(BatchinfError::InvalidPredictorOutput)
            },
            Err(error) => {
                &&& self.metric == BatchMetric::CompleteErr(metrics.size)
                &&& forall|i: int|
                    0 <= i < senders.len() ==> {
                        &&& (#[trigger] self.replies@[i]).1 matches Err(
                            BatchinfError::InferenceError(copy),
                        )
                        &&& cloned(error, copy)
                    }
            },
        }
    }
}

/// The items of a vector, the last one first.
fn reversed<T>(items: Vec<T>) -> (back: Vec<T>)
    ensures
        back@ == items@.reverse(),
{
    let mut items = items;
    let ghost all = items@;
    let mut back: Vec<T> = Vec::with_capacity(items.len());
    while items.len() > 0
        invariant
            back@.len() + items@.len() == all.len(),
            items@ == all.take(items@.len() as int),
            forall|i: int| 0 <= i < back@.len() ==> back@[i] == all[all.len() - 1 - i],
        decreases items@.len(),
    {
        match items.pop() {
            Some(item) => back.push(item),
            None => {},
        }
        assert(items@ =~= all.take(items@.len() as int));
    }
    assert(back@ =~= all.reverse());
    back
}

/// Pairs the outputs of a batch with the senders of its requests, in order. On an error, everybody
/// gets the error, and so does everybody when the number of outputs is not that of the requests.
pub fn send_output<O, E: Clone, S>(
    output: Result<Vec<O>, E>,
    senders: Vec<S>,
    metrics: InfBatchMetrics,
) -> (report: BatchReport<O, E, S>)
    ensures
        report.answers(output, senders@, metrics),
{
    let batch = match output {
        Ok(batch) => batch,
        Err(error) => return send_errors(error, senders, metrics),
    };
    if batch.len() != senders.len() {
        return send_invalid(senders, metrics);
    }
    let ghost all = senders@;
    let ghost outputs = batch@;
    let mut pending = reversed(batch);
    let mut replies: Vec<(S, Result<O, BatchinfError<E>>)> = Vec::with_capacity(senders.len());
    for sender in it: senders.into_iter()
        invariant
            it.seq() == all,
            all.len() == outputs.len(),
            replies@.len() == it.index(),
            pending@ == outputs.skip(it.index()).reverse(),
            forall|i: int|
                0 <= i < replies@.len() ==> #[trigger] replies@[i] == (
                    all[i],
                    Ok::<O, BatchinfError<E>>(outputs[i]),
                ),
    {
        let ghost answered = replies@.len() as int;
        match pending.pop() {
            Some(result) => replies.push((sender, Ok(result))),
            None => {},
        }
        assert(pending@ =~= outputs.skip(answered + 1).reverse());
    }
    BatchReport { metric: BatchMetric::CompleteOk(metrics), replies }
}

/// Answers every sender with a clone of the error.
pub fn send_errors<O, E: Clone, S>(error: E, senders: Vec<S>, metrics: InfBatchMetrics) -> (report:
    BatchReport<O, E, S>)
    ensures
        report.answers(Err(error), senders@, metrics),
{
    let ghost all = senders@;
    let mut replies: Vec<(S, Result<O, BatchinfError<E>>)> = Vec::with_capacity(senders.len());
    for sender in it: senders.into_iter()
        invariant
            it.seq() == all,
            replies@.len() == it.index(),
            forall|i: int|
                0 <= i < replies@.len() ==> {
                    &&& (#[trigger] replies@[i]).0 == all[i]
                    &&& replies@[i].1 matches Err(BatchinfError::InferenceError(copy))
                    &&& cloned(error, copy)
                },
    {
        replies.push((sender, Err(BatchinfError::InferenceError(error.clone()))));
    }
    BatchReport { metric: BatchMetric::CompleteErr(metrics.size), replies }
}

/// Tells every sender that inference gave a wrong number of outputs.
fn send_invalid<O, E, S>(senders: Vec<S>, metrics: InfBatchMetrics) -> (report: BatchReport<
    O,
    E,
    S,
>)
    ensures
        report.metric == BatchMetric::CompleteErr(metrics.size),
        report.replies@ == senders@.map_values(
            |sender: S|
                (sender, Err::<O, BatchinfError<E>>(BatchinfError::InvalidPredictorOutput)),
        ),
{
    let ghost all = senders@;
    let mut replies: Vec<(S, Result<O, BatchinfError<E>>)> = Vec::with_capacity(senders.len());
    for sender in it: senders.into_iter()
        invariant
            it.seq() == all,
            replies@.len() == it.index(),
            forall|i: int|
                0 <= i < replies@.len() ==> #[trigger] replies@[i] == (
                    all[i],
                    Err::<O, BatchinfError<E>>(BatchinfError::InvalidPredictorOutput),
                ),
    {
        replies.push((sender, Err(BatchinfError::InvalidPredictorOutput)));
    }
    assert(replies@ =~= all.map_values(
        |sender: S| (sender, Err::<O, BatchinfError<E>>(BatchinfError::InvalidPredictorOutput)),
    ));
    BatchReport { metric: BatchMetric::CompleteErr(metrics.size), replies }
}

/// `tokio::sync::oneshot::Sender`: the sending half of a channel for one answer. Nothing inside it
/// is read.
#[verifier::external_type_specification]
#[verifier::external_body]
#[verifier::reject_recursive_types(T)]
pub struct ExReplySender<T>(tokio::sync::oneshot::Sender<T>);

/// Calls `tokio::sync::oneshot::Sender::send`, which never waits: it leaves the answer for the
/// receiving half, or fails because that is gone, and then hands back the very answer that was
/// passed. Which of the two it is depends on the task that holds the receiving half, so nothing is
/// claimed of that.
#[verifier::external_body]
pub fn send_reply<T>(sender: Sender<T>, answer: T) -> (result: Result<(), T>)
    ensures
        result matches Err(back) ==> back == answer,
{
    sender.send(answer)
}

/// Whether each answer was sent through its own sender, whatever came of the others.
pub open spec fn all_sent<T>(replies: Seq<(Sender<T>, T)>, outcomes: Seq<Result<(), T>>) -> bool {
    &&& outcomes.len() == replies.len()
    &&& forall|i: int|
        0 <= i < replies.len() ==> call_ensures(
            send_reply::<T>,
            ((#[trigger] replies[i]).0, replies[i].1),
            outcomes[i],
        )
}

/// Sends every answer through its sender. A caller that has given up does not receive its answer,
/// which is handed back; the others are answered all the same.
pub fn deliver<T>(replies: Vec<(Sender<T>, T)>) -> (outcomes: Vec<Result<(), T>>)
    ensures
        all_sent(replies@, outcomes@),
{
    let ghost all = replies@;
    let mut outcomes: Vec<Result<(), T>> = Vec::with_capacity(replies.len());
    for reply in it: replies.into_iter()
        invariant
            it.seq() == all,
            outcomes@.len() == it.index(),
            forall|i: int|
                0 <= i < outcomes@.len() ==> call_ensures(
                    send_reply::<T>,
                    ((#[trigger] all[i]).0, all[i].1),
                    outcomes@[i],
                ),
    {
        let (sender, answer) = reply;
        outcomes.push(send_reply(sender, answer));
    }
    outcomes
}

/// The time between two readings of a clock, and none if it was set back.
pub open spec fn elapsed(start: u64, end: u64) -> u64 {
    if end < start {
        0
    } else {
        (end - start) as u64
    }
}

/// What is measured of a batch of requests whose inference was started and had ended at these
/// readings of the clock.
pub open spec fn measured<I, S>(requests: Seq<(I, S)>, start: u64, end: u64) -> InfBatchMetrics {
    InfBatchMetrics { size: requests.len() as usize, latency: elapsed(start, end) }
}

/// Takes in what inference gave for the batch in the buffer, and says how its callers are answered.
/// `start` and `end` are the readings of the clock before and after inference. The buffer is empty
/// afterwards: no request is run twice.
pub fn complete_batch<I, O, E: Clone, S>(
    buffer: &mut WorkerBuffer<I, S>,
    output: Result<Vec<O>, E>,
    start: u64,
    end: u64,
) -> (report: BatchReport<O, E, S>)
    requires
        old(buffer).wf(),
    ensures
        final(buffer).wf(),
        final(buffer)@ == Seq::<(I, S)>::empty(),
        report.answers(output, senders_of(old(buffer)@), measured(old(buffer)@, start, end)),
{
    let size: usize = buffer.len();
    let latency: u64 = if end < start {
        0
    } else {
        end - start
    };
    let senders = buffer.clear_and_take_senders();
    send_output(output, senders, InfBatchMetrics { size, latency })
}

/// Whether a report is what comes of running `requests` from `start` on: inference was called with
/// their inputs in order, the clock was read once its output was there, and the report answers by
/// that output.
pub open spec fn ran<
    P: Predictor,
    S,
    C: FnOnce(&Result<Vec<P::Output>, P::Error>) -> u64,
>(
    predictor: &P,
    requests: Seq<(P::Input, S)>,
    start: u64,
    clock: C,
    report: BatchReport<P::Output, P::Error, S>,
) -> bool {
    exists|inputs: &[P::Input], output: Result<Vec<P::Output>, P::Error>, end: u64|
        {
            &&& inputs@ == inputs_of(requests)
            &&& #[trigger] call_ensures(P::predict_batch, (predictor, inputs), output)
            &&& #[trigger] call_ensures(clock, (&output,), end)
            &&& report.answers(output, senders_of(requests), measured(requests, start, end))
        }
}

/// Runs one batch, and says how its callers are answered. The batch and the call of inference are
/// handed over and used up, so that there is one shot for the requests: nothing is known here of
/// `infer` but that it can be called once, and after the run neither is left.
pub fn run_once<P, I, O, E: Clone, S, F, C>(
    infer: F,
    predictor: &P,
    batch: WorkerBuffer<I, S>,
    start: u64,
    clock: C,
) -> (report: BatchReport<O, E, S>) where
    F: FnOnce(&P, &[I]) -> Result<Vec<O>, E>,
    C: FnOnce(&Result<Vec<O>, E>) -> u64,

    requires
        batch.wf(),
        forall|inputs: &[I]|
            inputs@ == inputs_of(batch@) ==> call_requires(infer, (predictor, inputs)),
        forall|output: &Result<Vec<O>, E>| call_requires(clock, (output,)),
    ensures
        exists|inputs: &[I], output: Result<Vec<O>, E>, end: u64|
            {
                &&& inputs@ == inputs_of(batch@)
                &&& #[trigger] call_ensures(infer, (predictor, inputs), output)
                &&& #[trigger] call_ensures(clock, (&output,), end)
                &&& report.answers(output, senders_of(batch@), measured(batch@, start, end))
            },
{
    let mut batch = batch;
    let inputs = batch.input();
    let output = infer(predictor, inputs);
    assert(call_ensures(infer, (predictor, inputs), output));
    let end: u64 = clock(&output);
    complete_batch(&mut batch, output, start, end)
}

/// Runs inference on the batch in the buffer, if there is one, and says how its callers are
/// answered. `start` is the reading of the clock at which inference starts, and `clock` reads it
/// once more, for the output of inference that it is shown. The buffer is empty afterwards: the
/// batch is used up by its one run.
pub fn run_inference<
    P: Predictor,
    S,
    C: FnOnce(&Result<Vec<P::Output>, P::Error>) -> u64,
>(
    predictor: &P,
    buffer: &mut WorkerBuffer<P::Input, S>,
    start: u64,
    clock: C,
) -> (report: Option<BatchReport<P::Output, P::Error, S>>)
    requires
        old(buffer).wf(),
        forall|output: &Result<Vec<P::Output>, P::Error>| call_requires(clock, (output,)),
    ensures
        final(buffer).wf(),
        final(buffer)@ == Seq::<(P::Input, S)>::empty(),
        report is None <==> old(buffer)@.len() == 0,
        report matches Some(r) ==> ran(predictor, old(buffer)@, start, clock, r),
        report matches Some(r) ==> exists|batch: WorkerBuffer<P::Input, S>|
            batch@ == old(buffer)@ && #[trigger] call_ensures(
                run_once::<P, P::Input, P::Output, P::Error, S, _, C>,
                (P::predict_batch, predictor, batch, start, clock),
                r,
            ),
{
    if buffer.is_empty() {
        assert(buffer@ =~= Seq::<(P::Input, S)>::empty());
        return None;
    }
    let mut batch = WorkerBuffer::with_capacity(buffer.len());
    std::mem::swap(&mut batch, buffer);
    Some(run_once(P::predict_batch, predictor, batch, start, clock))
}

} // verus!
