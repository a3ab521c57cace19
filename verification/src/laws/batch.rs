//! Accumulating a batch, running it and answering its callers.
use tokio::sync::oneshot::Sender;
use vstd::prelude::*;

use crate::config::InnerConfig;
use crate::error::BatchinfError;
use crate::observability::{BatchMetric, BatchTrigger, InfBatchMetrics};
use crate::predictor::Predictor;
use crate::state::{StateChange, WorkerStatus};
use crate::worker::{
    accumulate_next_batch, after_accumulation, after_inference, complete_batch, deliver, next_wait,
    reset_next_inf, run_inference, run_once, send_errors, send_output, send_reply,
    time_until_timeout, AccumulateEvent, AccumulateStep, Accumulated, BatchReport, LoopStep,
    WorkerBuffer,
};

verus! {

/// A batch starts out empty.
pub proof fn law_buffer_starts_empty<I, S>(capacity: usize, buffer: WorkerBuffer<I, S>)
    requires
        call_ensures(WorkerBuffer::<I, S>::with_capacity, (capacity,), buffer),
    ensures
        buffer@.len() == 0,
{
}

/// A request joins a batch behind the others, which stay as they are.
pub proof fn law_push_adds_the_last_request<I, S>(buffer: &mut WorkerBuffer<I, S>, data: (I, S))
    requires
        call_ensures(WorkerBuffer::<I, S>::push, (buffer, data), ()),
    ensures
        final(buffer)@.len() == old(buffer)@.len() + 1,
        final(buffer)@[old(buffer)@.len() as int] == data,
        forall|k: int|
            0 <= k < old(buffer)@.len() ==> #[trigger] final(buffer)@[k] == old(buffer)@[k],
{
}

/// The inputs of a batch are those of all its requests, each at the position of its request.
pub proof fn law_inputs_are_those_of_every_request<I, S>(
    buffer: &WorkerBuffer<I, S>,
    inputs: &[I],
    len: usize,
    empty: bool,
)
    requires
        call_ensures(WorkerBuffer::<I, S>::input, (buffer,), inputs),
        call_ensures(WorkerBuffer::<I, S>::len, (buffer,), len),
        call_ensures(WorkerBuffer::<I, S>::is_empty, (buffer,), empty),
    ensures
        inputs@.len() == buffer@.len(),
        forall|k: int| 0 <= k < buffer@.len() ==> #[trigger] inputs@[k] == buffer@[k].0,
        len == buffer@.len(),
        empty <==> buffer@.len() == 0,
{
}

/// Emptying a batch hands out the senders of all its requests, each at the position of its request.
pub proof fn law_senders_are_those_of_every_request<I, S>(
    buffer: &mut WorkerBuffer<I, S>,
    senders: Vec<S>,
)
    requires
        call_ensures(WorkerBuffer::<I, S>::clear_and_take_senders, (buffer,), senders),
    ensures
        final(buffer)@.len() == 0,
        senders@.len() == old(buffer)@.len(),
        forall|k: int| 0 <= k < senders@.len() ==> #[trigger] senders@[k] == old(buffer)@[k].1,
{
}

/// The timer of a batch runs out a batch timeout of milliseconds after the moment at which it was
/// started.
pub proof fn law_timer_runs_for_the_timeout(ts: &mut u128, now: u64, timeout: u64)
    requires
        call_ensures(reset_next_inf, (ts, now, timeout), ()),
    ensures
        *final(ts) == now + timeout * 1_000_000,
{
}

/// The time until a moment, in milliseconds, is none if the moment has passed. Otherwise it is the
/// least that reaches the moment, apart from what 64 bits cut off.
pub proof fn law_remaining_time_reaches_the_moment(ts: u128, now: u64, millis: u64)
    requires
        call_ensures(time_until_timeout, (ts, now), millis),
    ensures
        ts <= now ==> millis == 0,
        ts > now ==> millis == ((ts - now + 999_999) / 1_000_000) % 0x1_0000_0000_0000_0000,
        now < ts <= now + 0xFFFF_FFFF_FFFF_FFFF * 1_000_000 ==> ts <= now + millis * 1_000_000 < ts
            + 1_000_000,
{
}

/// A worker waits for the first request of a batch for as long as it takes. From then on it waits
/// until the batch times out, and less than a millisecond longer.
pub proof fn law_wait_is_for_the_first_request_or_the_timeout<I, S>(
    buffer: &WorkerBuffer<I, S>,
    next_inf: u128,
    now: u64,
    wait: Option<u64>,
)
    requires
        call_ensures(next_wait::<I, S>, (buffer, next_inf, now), wait),
    ensures
        wait is None <==> buffer@.len() == 0,
        wait is Some && next_inf <= now ==> wait == Some(0u64),
        wait is Some && now < next_inf <= now + 0xFFFF_FFFF_FFFF_FFFF * 1_000_000 ==> next_inf
            <= now + wait->0 * 1_000_000 < next_inf + 1_000_000,
        wait is Some && now < next_inf ==> wait->0 == ((next_inf - now + 999_999) / 1_000_000)
            % 0x1_0000_0000_0000_0000,
{
}

/// A request that comes out of the queue joins the batch and is counted. It starts the timer if it
/// is the first, and leaves the timer alone otherwise. It fires the batch, as one of all its
/// requests that is full, exactly if it brings the batch to its size.
pub proof fn law_received_request_joins_the_batch<I, S>(
    buffer: &mut WorkerBuffer<I, S>,
    next_inf: &mut u128,
    config: InnerConfig,
    input: I,
    sender: S,
    now: u64,
    step: AccumulateStep,
)
    requires
        call_ensures(
            accumulate_next_batch::<I, S>,
            (buffer, next_inf, config, AccumulateEvent::Received(input, sender), now),
            step,
        ),
        old(buffer)@.len() < usize::MAX,
    ensures
        final(buffer)@ == old(buffer)@.push((input, sender)),
        step.counted,
        old(buffer)@.len() == 0 ==> *final(next_inf) == now + config.timeout * 1_000_000,
        old(buffer)@.len() > 0 ==> *final(next_inf) == *old(next_inf),
        final(buffer)@.len() != config.size ==> step.outcome == Accumulated::Collecting,
        final(buffer)@.len() == config.size ==> {
            &&& step.outcome matches Accumulated::Fire(trigger, size)
            &&& trigger == BatchTrigger::Capacity
            &&& size == final(buffer)@.len()
        },
{
}

/// A timer that runs out changes nothing in the batch. It fires a batch that has requests, as one
/// of all its requests that timed out, exactly if the worker is still waiting.
pub proof fn law_timeout_fires_the_batch<I, S>(
    buffer: &mut WorkerBuffer<I, S>,
    next_inf: &mut u128,
    config: InnerConfig,
    seen: WorkerStatus,
    now: u64,
    step: AccumulateStep,
)
    requires
        call_ensures(
            accumulate_next_batch::<I, S>,
            (buffer, next_inf, config, AccumulateEvent::TimedOut(seen), now),
            step,
        ),
        old(buffer)@.len() <= usize::MAX,
    ensures
        final(buffer)@ == old(buffer)@,
        *final(next_inf) == *old(next_inf),
        !step.counted,
        seen is Waiting && old(buffer)@.len() > 0 ==> {
            &&& step.outcome matches Accumulated::Fire(trigger, size)
            &&& trigger == BatchTrigger::Timeout
            &&& size == final(buffer)@.len()
        },
        !(seen is Waiting) || old(buffer)@.len() == 0 ==> step.outcome == Accumulated::Interrupted,
{
}

/// A queue that closes changes nothing in the batch, and ends accumulation for good.
pub proof fn law_closed_queue_ends_accumulation<I, S>(
    buffer: &mut WorkerBuffer<I, S>,
    next_inf: &mut u128,
    config: InnerConfig,
    now: u64,
    step: AccumulateStep,
)
    requires
        call_ensures(
            accumulate_next_batch::<I, S>,
            (buffer, next_inf, config, AccumulateEvent::Closed, now),
            step,
        ),
    ensures
        final(buffer)@ == old(buffer)@,
        *final(next_inf) == *old(next_inf),
        !step.counted,
        step.outcome == Accumulated::Exited,
{
}

/// Of a batch that fires, whatever made it fire, the number of its requests is told, and what it
/// was that made it fire.
pub proof fn law_fired_batch_is_told_in_full<I, S>(
    buffer: &mut WorkerBuffer<I, S>,
    next_inf: &mut u128,
    config: InnerConfig,
    event: AccumulateEvent<I, S>,
    now: u64,
    step: AccumulateStep,
)
    requires
        call_ensures(
            accumulate_next_batch::<I, S>,
            (buffer, next_inf, config, event, now),
            step,
        ),
        old(buffer)@.len() < usize::MAX,
    ensures
        step.outcome matches Accumulated::Fire(trigger, size) ==> {
            &&& size == final(buffer)@.len()
            &&& size > 0
            &&& trigger is Capacity <==> event is Received
            &&& trigger is Timeout <==> event is TimedOut
        },
{
}

/// A request that was counted is counted in the worker's word first, and only then does the status
/// change: to `Running` when a batch fires, to `Exit` when no request will come any more, and not
/// at all otherwise.
pub proof fn law_word_follows_accumulation(step: &AccumulateStep, changes: Vec<StateChange>)
    requires
        call_ensures(AccumulateStep::changes, (step,), changes),
    ensures
        step.counted ==> changes@.len() > 0 && changes@[0] == StateChange::Counted,
        step.outcome is Fire ==> changes@.len() > 0 && changes@.last() == StateChange::Status(
            WorkerStatus::Running,
        ),
        step.outcome is Exited ==> changes@.len() > 0 && changes@.last() == StateChange::Status(
            WorkerStatus::Exit,
        ),
        changes@.len() == (if step.counted {
            1int
        } else {
            0int
        }) + (if step.outcome is Fire || step.outcome is Exited {
            1int
        } else {
            0int
        }),
{
}

/// A worker that runs its batch starts over afterwards, idle. One that exits leaves its word alone.
pub proof fn law_worker_starts_over_or_leaves(
    status: WorkerStatus,
    step: LoopStep,
    change: Option<StateChange>,
)
    requires
        call_ensures(after_accumulation, (status,), step),
        call_ensures(LoopStep::change, (&step,), change),
        status is Running || status is Exit,
    ensures
        status is Running ==> change == Some(StateChange::Reset),
        status is Exit ==> change is None,
{
}

/// A worker is marked as crashed when inference panics, and only then.
pub proof fn law_panic_marks_the_worker(panicking: bool, change: Option<StateChange>)
    requires
        call_ensures(after_inference, (panicking,), change),
    ensures
        panicking ==> change == Some(StateChange::Status(WorkerStatus::Crashed)),
        !panicking ==> change is None,
{
}

/// When there is one output for each sender, each is answered with the output at its own position,
/// and the batch is told to be complete.
pub proof fn law_outputs_are_sent_by_position<O, E: Clone, S>(
    batch: Vec<O>,
    senders: Vec<S>,
    metrics: InfBatchMetrics,
    report: BatchReport<O, E, S>,
)
    requires
        call_ensures(send_output::<O, E, S>, (Ok(batch), senders, metrics), report),
        batch@.len() == senders@.len(),
    ensures
        report.metric == BatchMetric::CompleteOk(metrics),
        report.replies@.len() == senders@.len(),
        forall|k: int|
            0 <= k < senders@.len() ==> (#[trigger] report.replies@[k]).0 == senders@[k]
                && report.replies@[k].1 == Ok::<O, BatchinfError<E>>(batch@[k]),
{
}

/// When there are more or fewer outputs than senders, each is told so, none is given an output, and
/// the batch is told to have failed.
pub proof fn law_misfit_outputs_are_sent_to_nobody<O, E: Clone, S>(
    batch: Vec<O>,
    senders: Vec<S>,
    metrics: InfBatchMetrics,
    report: BatchReport<O, E, S>,
)
    requires
        call_ensures(send_output::<O, E, S>, (Ok(batch), senders, metrics), report),
        batch@.len() != senders@.len(),
    ensures
        report.metric == BatchMetric::CompleteErr(metrics.size),
        report.replies@.len() == senders@.len(),
        forall|k: int|
            0 <= k < senders@.len() ==> (#[trigger] report.replies@[k]).0 == senders@[k]
                && report.replies@[k].1 == Err::<O, BatchinfError<E>>(
                BatchinfError::InvalidPredictorOutput,
            ),
{
}

/// When inference gives an error, each sender is answered with a clone of it, and the batch is told
/// to have failed.
pub proof fn law_error_is_sent_to_everybody<O, E: Clone, S>(
    error: E,
    senders: Vec<S>,
    metrics: InfBatchMetrics,
    report: BatchReport<O, E, S>,
)
    requires
        call_ensures(send_output::<O, E, S>, (Err(error), senders, metrics), report)
            || call_ensures(send_errors::<O, E, S>, (error, senders, metrics), report),
    ensures
        report.metric == BatchMetric::CompleteErr(metrics.size),
        report.replies@.len() == senders@.len(),
        forall|k: int|
            0 <= k < senders@.len() ==> {
                &&& (#[trigger] report.replies@[k]).0 == senders@[k]
                &&& report.replies@[k].1 matches Err(BatchinfError::InferenceError(copy))
                &&& cloned(error, copy)
            },
{
}

/// A batch is completed by what inference gave for it, and nothing is left of it. Everybody is told
/// the output at the position of the own request; or that there was a wrong number of outputs; or a
/// clone of the error. The time that inference took is the one between the readings of the clock,
/// and none if the clock was set back.
pub proof fn law_completed_batch_tells_everybody<I, O, E: Clone, S>(
    buffer: &mut WorkerBuffer<I, S>,
    output: Result<Vec<O>, E>,
    start: u64,
    end: u64,
    report: BatchReport<O, E, S>,
)
    requires
        call_ensures(complete_batch::<I, O, E, S>, (buffer, output, start, end), report),
        old(buffer)@.len() <= usize::MAX,
    ensures
        final(buffer)@.len() == 0,
        ({
            &&& report.replies@.len() == old(buffer)@.len()
            &&& forall|k: int|
                0 <= k < old(buffer)@.len() ==> (#[trigger] report.replies@[k]).0 == old(
                    buffer,
                )@[k].1
            &&& match output {
                Ok(batch_output) => if batch_output@.len() == old(buffer)@.len() {
                    &&& report.metric matches BatchMetric::CompleteOk(metrics)
                    &&& metrics.size == old(buffer)@.len()
                    &&& end >= start ==> metrics.latency == end - start
                    &&& end < start ==> metrics.latency == 0
                    &&& forall|k: int|
                        0 <= k < old(buffer)@.len() ==> (#[trigger] report.replies@[k]).1 == Ok::<
                            O,
                            BatchinfError<E>,
                        >(batch_output@[k])
                } else {
                    &&& report.metric matches BatchMetric::CompleteErr(size)
                    &&& size == old(buffer)@.len()
                    &&& forall|k: int|
                        0 <= k < old(buffer)@.len() ==> (#[trigger] report.replies@[k]).1 == Err::<
                            O,
                            BatchinfError<E>,
                        >(BatchinfError::InvalidPredictorOutput)
                },
                Err(error) => {
                    &&& report.metric matches BatchMetric::CompleteErr(size)
                    &&& size == old(buffer)@.len()
                    &&& forall|k: int|
                        0 <= k < old(buffer)@.len() ==> {
                            &&& (#[trigger] report.replies@[k]).1 matches Err(
                                BatchinfError::InferenceError(copy),
                            )
                            &&& cloned(error, copy)
                        }
                },
            }
        }),
{
}

/// A batch has one shot. Inference is called with the inputs of all its requests, each at its own
/// position; the clock is read when its output is there; and by that very output everybody in the
/// batch is told, whether it is an error or not. Nothing is required of the call but that it can be
/// made once.
pub proof fn law_batch_has_one_shot<P, I, O, E: Clone, S, F, C>(
    infer: F,
    predictor: &P,
    batch: WorkerBuffer<I, S>,
    start: u64,
    clock: C,
    report: BatchReport<O, E, S>,
) where F: FnOnce(&P, &[I]) -> Result<Vec<O>, E>, C: FnOnce(&Result<Vec<O>, E>) -> u64
    requires
        call_ensures(
            run_once::<P, I, O, E, S, F, C>,
            (infer, predictor, batch, start, clock),
            report,
        ),
        batch@.len() <= usize::MAX,
    ensures
        exists|inputs: &[I], output: Result<Vec<O>, E>, end: u64|
            {
                &&& inputs@.len() == batch@.len()
                &&& forall|k: int| 0 <= k < batch@.len() ==> #[trigger] inputs@[k] == batch@[k].0
                &&& #[trigger] call_ensures(infer, (predictor, inputs), output)
                &&& #[trigger] call_ensures(clock, (&output,), end)
                &&& report.replies@.len() == batch@.len()
                &&& forall|k: int|
                    0 <= k < batch@.len() ==> (#[trigger] report.replies@[k]).0 == batch@[k].1
                &&& match output {
                    Ok(batch_output) => if batch_output@.len() == batch@.len() {
                        &&& report.metric matches BatchMetric::CompleteOk(metrics)
                        &&& metrics.size == batch@.len()
                        &&& end >= start ==> metrics.latency == end - start
                        &&& end < start ==> metrics.latency == 0
                        &&& forall|k: int|
                            0 <= k < batch@.len() ==> (#[trigger] report.replies@[k]).1 == Ok::<
                                O,
                                BatchinfError<E>,
                            >(batch_output@[k])
                    } else {
                        &&& report.metric matches BatchMetric::CompleteErr(size)
                        &&& size == batch@.len()
                        &&& forall|k: int|
                            0 <= k < batch@.len() ==> (#[trigger] report.replies@[k]).1 == Err::<
                                O,
                                BatchinfError<E>,
                            >(BatchinfError::InvalidPredictorOutput)
                    },
                    Err(error) => {
                        &&& report.metric matches BatchMetric::CompleteErr(size)
                        &&& size == batch@.len()
                        &&& forall|k: int|
                            0 <= k < batch@.len() ==> {
                                &&& (#[trigger] report.replies@[k]).1 matches Err(
                                    BatchinfError::InferenceError(copy),
                                )
                                &&& cloned(error, copy)
                            }
                    },
                }
            },
{
}

/// Running what a worker has accumulated is one shot of the predictor's own call on all of it, and
/// leaves nothing of it to run again. Nothing is run where nothing was accumulated.
pub proof fn law_accumulated_batch_is_run_once<P: Predictor, S, C>(
    predictor: &P,
    buffer: &mut WorkerBuffer<P::Input, S>,
    start: u64,
    clock: C,
    report: Option<BatchReport<P::Output, P::Error, S>>,
) where C: FnOnce(&Result<Vec<P::Output>, P::Error>) -> u64
    requires
        call_ensures(run_inference::<P, S, C>, (predictor, buffer, start, clock), report),
    ensures
        final(buffer)@.len() == 0,
        old(buffer)@.len() == 0 <==> report is None,
        report matches Some(r) ==> exists|batch: WorkerBuffer<P::Input, S>|
            batch@ == old(buffer)@ && #[trigger] call_ensures(
                run_once::<P, P::Input, P::Output, P::Error, S, _, C>,
                (P::predict_batch, predictor, batch, start, clock),
                r,
            ),
{
}

/// With a predictor that gives one output for each input, `infer` of that input, every caller of a
/// batch is told what inference makes of its own input, through its own sender.
pub proof fn law_every_caller_gets_its_own_output<P: Predictor, S, C>(
    predictor: &P,
    infer: spec_fn(P::Input) -> P::Output,
    buffer: &mut WorkerBuffer<P::Input, S>,
    start: u64,
    clock: C,
    report: BatchReport<P::Output, P::Error, S>,
) where C: FnOnce(&Result<Vec<P::Output>, P::Error>) -> u64
    requires
        call_ensures(run_inference::<P, S, C>, (predictor, buffer, start, clock), Some(report)),
        old(buffer)@.len() <= usize::MAX,
        forall|inputs: &[P::Input], output: Result<Vec<P::Output>, P::Error>| #[trigger]
            call_ensures(P::predict_batch, (predictor, inputs), output) ==> {
                &&& output is Ok
                &&& output->Ok_0@ == inputs@.map_values(infer)
            },
    ensures
        report.metric matches BatchMetric::CompleteOk(metrics) && metrics.size
            == old(buffer)@.len(),
        report.replies@.len() == old(buffer)@.len(),
        forall|k: int|
            0 <= k < old(buffer)@.len() ==> (#[trigger] report.replies@[k]).0 == old(buffer)@[k].1
                && report.replies@[k].1 == Ok::<P::Output, BatchinfError<P::Error>>(
                infer(old(buffer)@[k].0),
            ),
{
    let batch = choose|batch: WorkerBuffer<P::Input, S>|
        batch@ == old(buffer)@ && #[trigger] call_ensures(
            run_once::<P, P::Input, P::Output, P::Error, S, _, C>,
            (P::predict_batch, predictor, batch, start, clock),
            report,
        );
    law_batch_has_one_shot(P::predict_batch, predictor, batch, start, clock, report);
}

/// With a predictor that always fails, every caller of a batch is told an error that the predictor
/// gave for the whole batch.
pub proof fn law_every_caller_gets_the_error<P: Predictor, S, C>(
    predictor: &P,
    buffer: &mut WorkerBuffer<P::Input, S>,
    start: u64,
    clock: C,
    report: BatchReport<P::Output, P::Error, S>,
) where C: FnOnce(&Result<Vec<P::Output>, P::Error>) -> u64
    requires
        call_ensures(run_inference::<P, S, C>, (predictor, buffer, start, clock), Some(report)),
        old(buffer)@.len() <= usize::MAX,
        forall|inputs: &[P::Input], output: Result<Vec<P::Output>, P::Error>| #[trigger]
            call_ensures(P::predict_batch, (predictor, inputs), output) ==> output is Err,
    ensures
        report.metric matches BatchMetric::CompleteErr(size) && size == old(buffer)@.len(),
        exists|inputs: &[P::Input], error: P::Error|
            {
                &&& inputs@.len() == old(buffer)@.len()
                &&& forall|k: int|
                    0 <= k < inputs@.len() ==> #[trigger] inputs@[k] == old(buffer)@[k].0
                &&& #[trigger] call_ensures(P::predict_batch, (predictor, inputs), Err(error))
                &&& report.replies@.len() == inputs@.len()
                &&& forall|k: int|
                    0 <= k < inputs@.len() ==> {
                        &&& (#[trigger] report.replies@[k]).0 == old(buffer)@[k].1
                        &&& report.replies@[k].1 matches Err(BatchinfError::InferenceError(copy))
                        &&& cloned(error, copy)
                    }
            },
{
    let batch = choose|batch: WorkerBuffer<P::Input, S>|
        batch@ == old(buffer)@ && #[trigger] call_ensures(
            run_once::<P, P::Input, P::Output, P::Error, S, _, C>,
            (P::predict_batch, predictor, batch, start, clock),
            report,
        );
    law_batch_has_one_shot(P::predict_batch, predictor, batch, start, clock, report);
    let (inputs, output, end) = choose|
        inputs: &[P::Input],
        output: Result<Vec<P::Output>, P::Error>,
        end: u64,
    |
        {
            &&& inputs@.len() == batch@.len()
            &&& forall|k: int| 0 <= k < batch@.len() ==> #[trigger] inputs@[k] == batch@[k].0
            &&& #[trigger] call_ensures(P::predict_batch, (predictor, inputs), output)
            &&& #[trigger] call_ensures(clock, (&output,), end)
            &&& report.replies@.len() == batch@.len()
            &&& forall|k: int|
                0 <= k < batch@.len() ==> (#[trigger] report.replies@[k]).0 == batch@[k].1
            &&& match output {
                Ok(batch_output) => if batch_output@.len() == batch@.len() {
                    &&& report.metric matches BatchMetric::CompleteOk(metrics)
                    &&& metrics.size == batch@.len()
                    &&& end >= start ==> metrics.latency == end - start
                    &&& end < start ==> metrics.latency == 0
                    &&& forall|k: int|
                        0 <= k < batch@.len() ==> (#[trigger] report.replies@[k]).1 == Ok::<
                            P::Output,
                            BatchinfError<P::Error>,
                        >(batch_output@[k])
                } else {
                    &&& report.metric matches BatchMetric::CompleteErr(size)
                    &&& size == batch@.len()
                    &&& forall|k: int|
                        0 <= k < batch@.len() ==> (#[trigger] report.replies@[k]).1 == Err::<
                            P::Output,
                            BatchinfError<P::Error>,
                        >(BatchinfError::InvalidPredictorOutput)
                },
                Err(error) => {
                    &&& report.metric matches BatchMetric::CompleteErr(size)
                    &&& size == batch@.len()
                    &&& forall|k: int|
                        0 <= k < batch@.len() ==> {
                            &&& (#[trigger] report.replies@[k]).1 matches Err(
                                BatchinfError::InferenceError(copy),
                            )
                            &&& cloned(error, copy)
                        }
                },
            }
        };
    assert(output == Err::<Vec<P::Output>, P::Error>(output->Err_0));
    assert(call_ensures(P::predict_batch, (predictor, inputs), Err(output->Err_0)));
}

/// Every answer is sent through its own sender, whatever comes of the others.
pub proof fn law_every_answer_is_sent<T>(
    replies: Vec<(Sender<T>, T)>,
    outcomes: Vec<Result<(), T>>,
)
    requires
        call_ensures(deliver::<T>, (replies,), outcomes),
    ensures
        outcomes@.len() == replies@.len(),
        forall|k: int|
            0 <= k < replies@.len() ==> call_ensures(
                send_reply::<T>,
                ((#[trigger] replies@[k]).0, replies@[k].1),
                outcomes@[k],
            ),
{
}

} // verus!
