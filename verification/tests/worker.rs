//! One worker: accumulation, inference and answers.
use batchinf::observability::{BatchMetric, InfBatchMetrics};
use batchinf::worker::{
    accumulate_next_batch, after_accumulation, after_inference, complete_batch, deliver, next_wait,
    reset_next_inf, run_inference, send_errors, send_output, send_reply, time_until_timeout,
    AccumulateEvent, Accumulated, BatchReport, LoopStep, WorkerBuffer,
};
use batchinf::{
    BatchTrigger, BatchinfError, InnerConfig, Predictor, StateChange, WorkerState, WorkerStatus,
};
use tokio::sync::oneshot;

const MILLI: u64 = 1_000_000;

fn config(size: u64, timeout: u64) -> InnerConfig {
    InnerConfig { timeout, size }
}

fn received(input: u64) -> AccumulateEvent<u64, &'static str> {
    AccumulateEvent::Received(input, "caller")
}

fn metrics(size: usize) -> InfBatchMetrics {
    InfBatchMetrics { size, latency: 9 }
}

/// What a caller is told, in a form that can be compared.
#[derive(Debug, PartialEq)]
enum Told {
    Output(u64),
    Failed(String),
    Invalid,
}

fn told(answer: Result<u64, BatchinfError<String>>) -> Told {
    match answer {
        Ok(output) => Told::Output(output),
        Err(BatchinfError::InferenceError(error)) => Told::Failed(error),
        Err(BatchinfError::InvalidPredictorOutput) => Told::Invalid,
        Err(other) => panic!("{:?}", other),
    }
}

fn answers<S>(report: BatchReport<u64, String, S>) -> Vec<(S, Told)> {
    report.replies.into_iter().map(|(sender, answer)| (sender, told(answer))).collect()
}

#[derive(Clone)]
struct Doubling;

impl Predictor for Doubling {
    type Input = u64;
    type Output = u64;
    type Error = String;

    fn predict_batch(&self, inp: &[u64]) -> Result<Vec<u64>, String> {
        Ok(inp.iter().map(|input| input * 2).collect())
    }
}

#[derive(Clone)]
struct Failing;

impl Predictor for Failing {
    type Input = u64;
    type Output = u64;
    type Error = String;

    fn predict_batch(&self, inp: &[u64]) -> Result<Vec<u64>, String> {
        Err(format!("cannot run {} requests", inp.len()))
    }
}

#[test]
fn a_buffer_keeps_requests_in_order() {
    let mut buffer: WorkerBuffer<u64, char> = WorkerBuffer::with_capacity(4);
    assert!(buffer.is_empty());
    buffer.push((10, 'a'));
    buffer.push((20, 'b'));
    assert_eq!(buffer.len(), 2);
    assert_eq!(buffer.input(), &[10, 20]);
    assert_eq!(buffer.clear_and_take_senders(), vec!['a', 'b']);
    assert!(buffer.is_empty());
    assert_eq!(buffer.len(), 0);
    assert!(buffer.input().is_empty());
}

#[test]
fn a_batch_of_one_fires_with_its_first_request() {
    let mut buffer = WorkerBuffer::with_capacity(1);
    let mut next_inf: u128 = 0;
    let step = accumulate_next_batch(&mut buffer, &mut next_inf, config(1, 50), received(7), 0);
    assert_eq!(step.outcome, Accumulated::Fire(BatchTrigger::Capacity, 1));
    assert_eq!(
        step.changes(),
        vec![StateChange::Counted, StateChange::Status(WorkerStatus::Running)]
    );
}

#[test]
fn a_batch_fires_when_it_is_full() {
    let mut buffer = WorkerBuffer::with_capacity(3);
    let mut next_inf: u128 = 0;
    for input in [1, 2] {
        let step =
            accumulate_next_batch(&mut buffer, &mut next_inf, config(3, 50), received(input), 0);
        assert!(step.counted);
        assert_eq!(step.outcome, Accumulated::Collecting);
        assert_eq!(step.changes(), vec![StateChange::Counted]);
    }
    let step = accumulate_next_batch(&mut buffer, &mut next_inf, config(3, 50), received(3), 0);
    assert_eq!(step.outcome, Accumulated::Fire(BatchTrigger::Capacity, 3));
    assert_eq!(buffer.input(), &[1, 2, 3]);
}

#[test]
fn the_timer_starts_with_the_first_request_only() {
    let mut buffer = WorkerBuffer::with_capacity(8);
    let mut next_inf: u128 = 0;
    assert_eq!(next_wait(&buffer, next_inf, 5 * MILLI), None);
    accumulate_next_batch(&mut buffer, &mut next_inf, config(8, 50), received(1), 5 * MILLI);
    assert_eq!(next_inf, 55_000_000);
    assert_eq!(next_wait(&buffer, next_inf, 5 * MILLI), Some(50));
    accumulate_next_batch(&mut buffer, &mut next_inf, config(8, 50), received(2), 30 * MILLI);
    assert_eq!(next_inf, 55_000_000);
    assert_eq!(next_wait(&buffer, next_inf, 30 * MILLI), Some(25));
    assert_eq!(next_wait(&buffer, next_inf, 55 * MILLI), Some(0));
    assert_eq!(next_wait(&buffer, next_inf, 99 * MILLI), Some(0));
}

#[test]
fn a_batch_fires_when_its_timer_runs_out() {
    let mut buffer = WorkerBuffer::with_capacity(8);
    let mut next_inf: u128 = 0;
    accumulate_next_batch(&mut buffer, &mut next_inf, config(8, 50), received(1), 0);
    let step = accumulate_next_batch(
        &mut buffer,
        &mut next_inf,
        config(8, 50),
        AccumulateEvent::TimedOut(WorkerStatus::Waiting),
        50 * MILLI,
    );
    assert!(!step.counted);
    assert_eq!(step.outcome, Accumulated::Fire(BatchTrigger::Timeout, 1));
    assert_eq!(step.changes(), vec![StateChange::Status(WorkerStatus::Running)]);
}

#[test]
fn a_timer_does_not_overwrite_an_exit() {
    let mut buffer = WorkerBuffer::with_capacity(8);
    let mut next_inf: u128 = 0;
    accumulate_next_batch(&mut buffer, &mut next_inf, config(8, 50), received(1), 0);
    let step = accumulate_next_batch(
        &mut buffer,
        &mut next_inf,
        config(8, 50),
        AccumulateEvent::TimedOut(WorkerStatus::Exit),
        50 * MILLI,
    );
    assert_eq!(step.outcome, Accumulated::Interrupted);
    assert!(step.changes().is_empty());
    assert_eq!(buffer.len(), 1);
}

#[test]
fn a_closed_queue_makes_the_worker_exit_with_its_batch() {
    let mut buffer = WorkerBuffer::with_capacity(8);
    let mut next_inf: u128 = 0;
    accumulate_next_batch(&mut buffer, &mut next_inf, config(8, 50), received(21), 0);
    let step = accumulate_next_batch(
        &mut buffer,
        &mut next_inf,
        config(8, 50),
        AccumulateEvent::Closed,
        1,
    );
    assert_eq!(step.outcome, Accumulated::Exited);
    assert_eq!(step.changes(), vec![StateChange::Status(WorkerStatus::Exit)]);
    assert_eq!(after_accumulation(WorkerStatus::Exit), LoopStep::Leave);
    let report = run_inference(&Doubling, &mut buffer, 0, |_| 0).unwrap();
    assert_eq!(answers(report), vec![("caller", Told::Output(42))]);
}

#[test]
fn a_running_worker_starts_over() {
    let step = after_accumulation(WorkerStatus::Running);
    assert_eq!(step, LoopStep::Rearm);
    assert_eq!(step.change(), Some(StateChange::Reset));
    assert_eq!(LoopStep::Leave.change(), None);
}

#[test]
fn only_a_panic_crashes_a_worker() {
    assert_eq!(after_inference(true), Some(StateChange::Status(WorkerStatus::Crashed)));
    assert_eq!(after_inference(false), None);
}

#[test]
fn deadlines_are_in_nanoseconds() {
    let mut ts: u128 = 0;
    reset_next_inf(&mut ts, 7, 10);
    assert_eq!(ts, 10_000_007);
    reset_next_inf(&mut ts, u64::MAX, u64::MAX);
    assert_eq!(ts, u128::from(u64::MAX) * 1_000_001);
}

#[test]
fn the_remaining_time_is_rounded_up_to_milliseconds() {
    assert_eq!(time_until_timeout(2_999_999, 0), 3);
    assert_eq!(time_until_timeout(3_000_000, 0), 3);
    assert_eq!(time_until_timeout(3_000_001, 0), 4);
    assert_eq!(time_until_timeout(3_000_000, 2_000_001), 1);
    assert_eq!(time_until_timeout(3_000_000, 2_999_999), 1);
    assert_eq!(time_until_timeout(3_000_000, 3_000_000), 0);
    assert_eq!(time_until_timeout(5, 6), 0);
    assert_eq!(time_until_timeout((1u128 << 64) * 1_000_000 + 4_000_000, 0), 4);
    assert_eq!(time_until_timeout(u128::MAX, 0), ((u128::MAX / 1_000_000 + 1) % (1 << 64)) as u64);
}

#[test]
fn a_wait_never_ends_before_the_deadline() {
    let mut buffer = WorkerBuffer::with_capacity(8);
    let mut next_inf: u128 = 0;
    accumulate_next_batch(&mut buffer, &mut next_inf, config(8, 50), received(1), 0);
    for now in [0, 1, 400_000, 999_999, 1_000_000, 49_000_001, 49_600_000, 49_999_999, 50_000_000] {
        let millis = next_wait(&buffer, next_inf, now).unwrap();
        assert!(now + millis * MILLI >= 50 * MILLI);
        assert!(now + millis * MILLI < 51 * MILLI);
        assert!(millis <= 50);
    }
}

#[test]
fn inference_sees_the_inputs_and_is_clocked() {
    let mut buffer = WorkerBuffer::with_capacity(4);
    buffer.push((3, 'a'));
    buffer.push((4, 'b'));
    let report = run_inference(&Doubling, &mut buffer, 100, |output| {
        // The clock is read when the output is there.
        assert_eq!(output.as_ref().unwrap(), &vec![6, 8]);
        150
    })
    .unwrap();
    assert_eq!(
        report.metric,
        BatchMetric::CompleteOk(InfBatchMetrics { size: 2, latency: 50 })
    );
    assert_eq!(answers(report), vec![('a', Told::Output(6)), ('b', Told::Output(8))]);
    assert!(buffer.is_empty());
}

#[test]
fn a_clock_that_is_set_back_gives_no_latency() {
    let mut buffer = WorkerBuffer::with_capacity(1);
    buffer.push((3, 'a'));
    let report = run_inference(&Doubling, &mut buffer, 100, |_| 50).unwrap();
    assert_eq!(report.metric, BatchMetric::CompleteOk(InfBatchMetrics { size: 1, latency: 0 }));
}

#[test]
fn a_worker_whose_queue_closes_comes_to_its_end() {
    let config = config(2, 50);
    let count = 5;
    for patience in 1..4 {
        let mut state = WorkerState::new(config);
        let mut buffer = WorkerBuffer::with_capacity(2);
        let mut next_inf: u128 = 0;
        let mut yielded = 0;
        let mut moves = 0;
        let mut outputs: Vec<Told> = Vec::new();
        loop {
            let event = if buffer.len() > 0 && moves % patience == 0 {
                AccumulateEvent::TimedOut(state.get_state())
            } else if yielded < count {
                yielded += 1;
                received(yielded)
            } else {
                AccumulateEvent::Closed
            };
            let step = accumulate_next_batch(&mut buffer, &mut next_inf, config, event, u64::MAX);
            moves += 1;
            for change in step.changes() {
                state.apply(change);
            }
            if step.outcome == Accumulated::Collecting {
                continue;
            }
            let next = after_accumulation(state.get_state());
            assert!(buffer.len() <= 2);
            if let Some(report) = run_inference(&Doubling, &mut buffer, 0, |_| 0) {
                assert!(!report.replies.is_empty());
                outputs.extend(answers(report).into_iter().map(|(_, told)| told));
            }
            moves += 2;
            match next.change() {
                Some(change) => state.apply(change),
                None => break,
            }
        }
        assert_eq!(state.get_state(), WorkerStatus::Exit);
        assert_eq!(outputs, (1..=count).map(|input| Told::Output(2 * input)).collect::<Vec<_>>());
        assert!(moves <= 4 * count + 3);
    }
}

#[test]
fn an_empty_batch_is_not_run() {
    let mut buffer: WorkerBuffer<u64, char> = WorkerBuffer::with_capacity(4);
    assert!(run_inference(&Failing, &mut buffer, 0, |_| 0).is_none());
}

#[test]
fn a_batch_is_completed_by_what_inference_gave() {
    let mut buffer = WorkerBuffer::with_capacity(2);
    buffer.push(("x", 'a'));
    buffer.push(("y", 'b'));
    let output: Result<Vec<u64>, String> = Ok(vec![7, 8]);
    let report = complete_batch(&mut buffer, output, 1_000, 1_250);
    assert_eq!(
        report.metric,
        BatchMetric::CompleteOk(InfBatchMetrics { size: 2, latency: 250 })
    );
    assert_eq!(answers(report), vec![('a', Told::Output(7)), ('b', Told::Output(8))]);
    assert!(buffer.is_empty());
}

#[test]
fn an_error_goes_to_every_caller() {
    let mut buffer = WorkerBuffer::with_capacity(4);
    buffer.push((3, 'a'));
    buffer.push((4, 'b'));
    let report = run_inference(&Failing, &mut buffer, 0, |_| 0).unwrap();
    assert_eq!(report.metric, BatchMetric::CompleteErr(2));
    let error = "cannot run 2 requests".to_string();
    assert_eq!(
        answers(report),
        vec![('a', Told::Failed(error.clone())), ('b', Told::Failed(error))]
    );
    assert!(buffer.is_empty());
}

#[test]
fn outputs_are_paired_in_order() {
    let output: Result<Vec<u64>, String> = Ok(vec![1, 2, 3]);
    let report = send_output(output, vec!['a', 'b', 'c'], metrics(3));
    assert_eq!(report.metric, BatchMetric::CompleteOk(metrics(3)));
    assert_eq!(
        answers(report),
        vec![('a', Told::Output(1)), ('b', Told::Output(2)), ('c', Told::Output(3))]
    );
}

#[test]
fn too_few_outputs_are_given_to_nobody() {
    for outputs in [vec![], vec![1], vec![1, 2]] {
        let output: Result<Vec<u64>, String> = Ok(outputs);
        let report = send_output(output, vec!['a', 'b', 'c'], metrics(3));
        assert_eq!(report.metric, BatchMetric::CompleteErr(3));
        assert_eq!(
            answers(report),
            vec![('a', Told::Invalid), ('b', Told::Invalid), ('c', Told::Invalid)]
        );
    }
}

#[test]
fn too_many_outputs_are_given_to_nobody() {
    let output: Result<Vec<u64>, String> = Ok(vec![1, 2, 3]);
    let report = send_output(output, vec!['a'], metrics(1));
    assert_eq!(report.metric, BatchMetric::CompleteErr(1));
    assert_eq!(answers(report), vec![('a', Told::Invalid)]);
}

#[test]
fn errors_are_cloned() {
    let report = send_errors::<u64, String, char>("no".to_string(), vec!['a', 'b'], metrics(2));
    assert_eq!(report.metric, BatchMetric::CompleteErr(2));
    assert_eq!(
        answers(report),
        vec![('a', Told::Failed("no".to_string())), ('b', Told::Failed("no".to_string()))]
    );
}

#[test]
fn a_reply_reaches_its_caller_or_comes_back() {
    let (tx, rx) = oneshot::channel();
    assert_eq!(send_reply(tx, 5u64), Ok(()));
    assert_eq!(rx.blocking_recv().unwrap(), 5);
    let (tx, rx) = oneshot::channel();
    drop(rx);
    assert_eq!(send_reply(tx, 6u64), Err(6));
}

#[test]
fn a_caller_that_gives_up_changes_nothing_for_the_others() {
    let (first_tx, first) = oneshot::channel();
    let (second_tx, second) = oneshot::channel();
    let (third_tx, third) = oneshot::channel();
    let mut buffer = WorkerBuffer::with_capacity(3);
    buffer.push((1, first_tx));
    buffer.push((2, second_tx));
    buffer.push((3, third_tx));
    drop(second);
    let report = run_inference(&Doubling, &mut buffer, 0, |_| 0).unwrap();
    let outcomes = deliver(report.replies);
    assert!(outcomes[0].is_ok() && outcomes[2].is_ok());
    assert!(matches!(outcomes[1], Err(Ok(4))));
    assert_eq!(told(first.blocking_recv().unwrap()), Told::Output(2));
    assert_eq!(told(third.blocking_recv().unwrap()), Told::Output(6));
}
