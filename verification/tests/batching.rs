//! Batchers from end to end, with real queues and answers and with a clock that the test moves.
use batchinf::batcher::{handle_race, handle_recv, Race};
use batchinf::control_plane::confirm_restart;
use batchinf::observability::{BatchMetric, BatchTrigger, BatcherMetrics};
use batchinf::pool::{dispatch_result, pool_status, worker_status, Route, RouteNext};
use batchinf::queue::WorkerRef;
use batchinf::setup::plan_batcher;
use batchinf::worker::{
    accumulate_next_batch, after_accumulation, after_inference, deliver, next_wait, run_inference,
    AccumulateEvent, Accumulated, WorkerBuffer,
};
use batchinf::{
    BatcherConfig, BatchinfError, InnerConfig, NonZeroU64, Predictor, StateChange, WorkerSnapshot,
    WorkerState, WorkerStatus,
};
use std::sync::atomic::{AtomicU32, Ordering};
use std::sync::{Arc, Mutex};
use std::time::Duration;
use tokio::sync::mpsc::error::TryRecvError;
use tokio::sync::{mpsc, oneshot};

const MILLI: u64 = 1_000_000;

// --- Predictors ---

#[derive(Clone)]
struct EchoPredictor;

#[derive(Debug, Clone)]
struct TestError;

impl Predictor for EchoPredictor {
    type Input = u64;
    type Output = u64;
    type Error = TestError;

    fn predict_batch(&self, inp: &[u64]) -> Result<Vec<u64>, TestError> {
        Ok(inp.to_vec())
    }
}

#[derive(Clone)]
struct FailPredictor;

impl Predictor for FailPredictor {
    type Input = u64;
    type Output = u64;
    type Error = TestError;

    fn predict_batch(&self, _inp: &[u64]) -> Result<Vec<u64>, TestError> {
        Err(TestError)
    }
}

#[derive(Clone)]
struct ShortPredictor;

impl Predictor for ShortPredictor {
    type Input = u64;
    type Output = u64;
    type Error = TestError;

    fn predict_batch(&self, inp: &[u64]) -> Result<Vec<u64>, TestError> {
        Ok(inp[1..].to_vec())
    }
}

#[derive(Clone)]
struct RecordingPredictor {
    batches: Arc<Mutex<Vec<Vec<u64>>>>,
}

impl RecordingPredictor {
    fn new() -> Self {
        Self { batches: Arc::new(Mutex::new(Vec::new())) }
    }

    fn batches(&self) -> Vec<Vec<u64>> {
        self.batches.lock().unwrap().clone()
    }
}

impl Predictor for RecordingPredictor {
    type Input = u64;
    type Output = u64;
    type Error = TestError;

    fn predict_batch(&self, inp: &[u64]) -> Result<Vec<u64>, TestError> {
        self.batches.lock().unwrap().push(inp.to_vec());
        Ok(inp.to_vec())
    }
}

#[derive(Clone)]
struct CountingPredictor {
    call_count: Arc<AtomicU32>,
}

impl CountingPredictor {
    fn new() -> Self {
        Self { call_count: Arc::new(AtomicU32::new(0)) }
    }

    fn call_count(&self) -> u32 {
        self.call_count.load(Ordering::SeqCst)
    }
}

impl Predictor for CountingPredictor {
    type Input = u64;
    type Output = u64;
    type Error = TestError;

    fn predict_batch(&self, inp: &[u64]) -> Result<Vec<u64>, TestError> {
        self.call_count.fetch_add(1, Ordering::SeqCst);
        Ok(inp.to_vec())
    }
}

// --- Metrics ---

#[derive(Debug)]
struct TestMetrics {
    capacity_triggers: AtomicU32,
    timeout_triggers: AtomicU32,
    ok_completions: AtomicU32,
    err_completions: AtomicU32,
    request_timeouts: AtomicU32,
}

impl TestMetrics {
    fn new() -> Arc<Self> {
        Arc::new(Self {
            capacity_triggers: AtomicU32::new(0),
            timeout_triggers: AtomicU32::new(0),
            ok_completions: AtomicU32::new(0),
            err_completions: AtomicU32::new(0),
            request_timeouts: AtomicU32::new(0),
        })
    }

    fn capacity_triggers(&self) -> u32 {
        self.capacity_triggers.load(Ordering::SeqCst)
    }

    fn timeout_triggers(&self) -> u32 {
        self.timeout_triggers.load(Ordering::SeqCst)
    }

    fn ok_completions(&self) -> u32 {
        self.ok_completions.load(Ordering::SeqCst)
    }

    fn err_completions(&self) -> u32 {
        self.err_completions.load(Ordering::SeqCst)
    }

    fn request_timeouts(&self) -> u32 {
        self.request_timeouts.load(Ordering::SeqCst)
    }
}

impl BatcherMetrics for TestMetrics {
    fn on_batch_trigger(&self, _batch_size: usize, trigger: BatchTrigger) {
        match trigger {
            BatchTrigger::Capacity => self.capacity_triggers.fetch_add(1, Ordering::SeqCst),
            BatchTrigger::Timeout => self.timeout_triggers.fetch_add(1, Ordering::SeqCst),
        };
    }

    fn on_batch_complete_ok(&self, _batch_size: usize, _latency: Duration) {
        self.ok_completions.fetch_add(1, Ordering::SeqCst);
    }

    fn on_batch_complete_err(&self, _batch_size: usize) {
        self.err_completions.fetch_add(1, Ordering::SeqCst);
    }

    fn on_request_timeout(&self) {
        self.request_timeouts.fetch_add(1, Ordering::SeqCst);
    }
}

// --- A batcher on one thread ---

type ReplySender = oneshot::Sender<Result<u64, BatchinfError<TestError>>>;
type Answer = oneshot::Receiver<Result<u64, BatchinfError<TestError>>>;
type Message = (u64, ReplySender);

struct Worker {
    queue: WorkerRef<Message>,
    receiver: mpsc::Receiver<Message>,
    buffer: WorkerBuffer<u64, ReplySender>,
    next_inf: u128,
    exited: bool,
}

struct Batcher<P> {
    predictor: P,
    config: InnerConfig,
    states: Vec<WorkerState>,
    workers: Vec<Worker>,
    obs: Option<Arc<dyn BatcherMetrics>>,
    now: u64,
}

fn get_batcher<P>(
    predictor: P,
    config: BatcherConfig,
    obs: Option<Arc<dyn BatcherMetrics>>,
) -> Batcher<P>
where
    P: Predictor<Input = u64, Output = u64, Error = TestError>,
{
    let plan = plan_batcher(&config);
    let workers = plan
        .workers
        .iter()
        .map(|_| {
            let (tx, receiver) = mpsc::channel(plan.channel_size);
            Worker {
                queue: WorkerRef::new(tx),
                receiver,
                buffer: WorkerBuffer::with_capacity(plan.channel_size),
                next_inf: 0,
                exited: false,
            }
        })
        .collect();
    Batcher {
        predictor,
        config: InnerConfig::from(config),
        states: plan.workers,
        workers,
        obs,
        now: 0,
    }
}

impl<P> Batcher<P>
where
    P: Predictor<Input = u64, Output = u64, Error = TestError>,
{
    /// Routes a request.
    fn submit(&mut self, input: u64) -> Result<Answer, BatchinfError<TestError>> {
        let (tx, answer) = oneshot::channel();
        let mut msg = (input, tx);
        let mut route = Route::begin(self.workers.len());
        loop {
            match route.next() {
                RouteNext::Visit(sink) => {
                    let state = self.states[sink];
                    if route.observe(&state.snapshot(), state.capacity()) {
                        let result = self.workers[sink].queue.push(state.get_state(), msg);
                        match route.settle(result) {
                            None => return Ok(answer),
                            Some(back) => msg = back,
                        }
                    }
                }
                RouteNext::Dispatch(sink) => {
                    let result =
                        self.workers[sink].queue.push(self.states[sink].get_state(), msg);
                    dispatch_result::<Message, TestError>(Some(result))?;
                    return Ok(answer);
                }
                RouteNext::Unavailable => {
                    dispatch_result::<Message, TestError>(None)?;
                    unreachable!("there was no worker to leave the request to");
                }
            }
        }
    }

    /// Lets every worker take in what is in its queue.
    fn pump(&mut self) {
        for i in 0..self.workers.len() {
            while !self.workers[i].exited {
                let event = match self.workers[i].receiver.try_recv() {
                    Ok((input, sender)) => AccumulateEvent::Received(input, sender),
                    Err(TryRecvError::Disconnected) => AccumulateEvent::Closed,
                    Err(TryRecvError::Empty) => break,
                };
                self.event(i, event);
            }
        }
    }

    /// Moves the clock, and lets every timer run out that does.
    fn wait(&mut self, millis: u64) {
        self.wait_nanos(millis * MILLI);
    }

    fn wait_nanos(&mut self, nanos: u64) {
        self.now += nanos;
        for i in 0..self.workers.len() {
            let left = next_wait(&self.workers[i].buffer, self.workers[i].next_inf, self.now);
            if left == Some(0) {
                self.event(i, AccumulateEvent::TimedOut(self.states[i].get_state()));
            }
        }
    }

    fn event(&mut self, i: usize, event: AccumulateEvent<u64, ReplySender>) {
        let worker = &mut self.workers[i];
        let step = accumulate_next_batch(
            &mut worker.buffer,
            &mut worker.next_inf,
            self.config,
            event,
            self.now,
        );
        for change in step.changes() {
            self.states[i].apply(change);
        }
        assert!(self.states[i].snapshot().queue_len == worker.buffer.len() as u64);
        match step.outcome {
            Accumulated::Collecting => return,
            Accumulated::Fire(trigger, size) => {
                if let Some(ref obs) = self.obs {
                    obs.on_batch_trigger(size, trigger);
                }
            }
            Accumulated::Exited | Accumulated::Interrupted => {}
        }
        let next = after_accumulation(self.states[i].get_state());
        let now = self.now;
        if let Some(report) = run_inference(&self.predictor, &mut worker.buffer, now, |_| now) {
            if let Some(ref obs) = self.obs {
                match report.metric {
                    BatchMetric::CompleteOk(m) => {
                        obs.on_batch_complete_ok(m.size, Duration::from_nanos(m.latency))
                    }
                    BatchMetric::CompleteErr(size) => obs.on_batch_complete_err(size),
                }
            }
            deliver(report.replies);
        }
        match next.change() {
            Some(change) => self.states[i].apply(change),
            None => worker.exited = true,
        }
    }

    /// Submits requests and lets the workers take them in.
    fn submit_all(&mut self, inputs: std::ops::Range<u64>) -> Vec<Answer> {
        inputs
            .map(|input| {
                let answer = self.submit(input).unwrap();
                self.pump();
                answer
            })
            .collect()
    }

    fn pool_status(&self) -> Vec<WorkerSnapshot> {
        pool_status(&self.states)
    }

    fn worker_status(&self, idx: usize) -> Option<WorkerSnapshot> {
        worker_status(&self.states, idx)
    }
}

fn told(answer: Answer) -> Result<u64, BatchinfError<TestError>> {
    handle_recv(answer.blocking_recv())
}

fn config(batch_size: u64, timeout_ms: u64, pool_size: u64) -> BatcherConfig {
    BatcherConfig {
        batch_size: NonZeroU64::new(batch_size).unwrap(),
        batch_timeout: NonZeroU64::new(timeout_ms).unwrap(),
        pool_size: NonZeroU64::new(pool_size).unwrap(),
    }
}

fn no_obs() -> Option<Arc<dyn BatcherMetrics>> {
    None
}

fn with_obs(m: &Arc<TestMetrics>) -> Option<Arc<dyn BatcherMetrics>> {
    Some(m.clone())
}

// --- Results ---

#[test]
fn test_single_request() {
    let mut batcher = get_batcher(EchoPredictor, config(8, 100, 1), no_obs());
    let answer = batcher.submit(42).unwrap();
    batcher.pump();
    batcher.wait(100);
    assert_eq!(told(answer).unwrap(), 42);
}

#[test]
fn test_results_match_inputs() {
    let mut batcher = get_batcher(EchoPredictor, config(8, 500, 1), no_obs());
    let answers = batcher.submit_all(0..8);
    let results: Vec<u64> = answers.into_iter().map(|answer| told(answer).unwrap()).collect();
    assert_eq!(results, (0..8u64).collect::<Vec<_>>());
}

#[test]
fn test_batch_fires_at_capacity() {
    let predictor = CountingPredictor::new();
    let mut batcher = get_batcher(predictor.clone(), config(4, 10_000, 1), no_obs());
    let answers = batcher.submit_all(0..4);
    for answer in answers {
        told(answer).unwrap();
    }
    assert_eq!(batcher.now, 0, "batch should have fired at capacity, not waited for 10s timeout");
    assert_eq!(predictor.call_count(), 1, "exactly one predict_batch call expected");
}

#[test]
fn test_batch_fires_at_timeout() {
    let timeout_ms = 50u64;
    let mut batcher = get_batcher(EchoPredictor, config(8, timeout_ms, 1), no_obs());
    let mut answer = batcher.submit(99).unwrap();
    batcher.pump();
    batcher.wait(timeout_ms - 1);
    assert!(answer.try_recv().is_err(), "should have waited at least {}ms", timeout_ms);
    batcher.wait_nanos(1);
    assert!(answer.try_recv().is_err(), "should have waited at least {}ms", timeout_ms);
    batcher.wait_nanos(MILLI - 2);
    assert!(answer.try_recv().is_err(), "should have waited at least {}ms", timeout_ms);
    batcher.wait_nanos(1);
    assert_eq!(batcher.now, timeout_ms * MILLI);
    assert_eq!(told(answer).unwrap(), 99);
}

#[test]
fn test_error_propagates_to_caller() {
    let mut batcher = get_batcher(FailPredictor, config(1, 50, 1), no_obs());
    let answer = batcher.submit(0).unwrap();
    batcher.pump();
    assert!(matches!(told(answer), Err(BatchinfError::InferenceError(TestError))));
}

#[test]
fn test_error_propagates_to_all_callers_in_batch() {
    let mut batcher = get_batcher(FailPredictor, config(4, 500, 1), no_obs());
    let answers = batcher.submit_all(0..4);
    let results: Vec<_> = answers.into_iter().map(told).collect();
    assert_eq!(results.len(), 4);
    assert!(results.iter().all(|r| r.is_err()), "all callers should receive the error");
}

#[test]
fn test_concurrent_requests_all_complete() {
    let n = 100u64;
    let mut batcher = get_batcher(EchoPredictor, config(16, 50, 1), no_obs());
    let answers = batcher.submit_all(0..n);
    batcher.wait(50);
    let results: Vec<u64> = answers.into_iter().map(|answer| told(answer).unwrap()).collect();
    assert_eq!(results.len(), n as usize);
}

#[test]
fn test_multi_worker_correct_results() {
    let n = 64u64;
    let mut batcher = get_batcher(EchoPredictor, config(4, 50, 4), no_obs());
    let answers = batcher.submit_all(0..n);
    batcher.wait(50);
    let results: Vec<u64> = answers.into_iter().map(|answer| told(answer).unwrap()).collect();
    assert_eq!(results, (0..n).collect::<Vec<_>>());
}

#[test]
fn test_multiple_sequential_batches() {
    let predictor = CountingPredictor::new();
    let mut batcher = get_batcher(predictor.clone(), config(4, 500, 1), no_obs());
    batcher.submit_all(0..4);
    batcher.submit_all(4..8);
    let answer = batcher.submit(8).unwrap();
    batcher.pump();
    batcher.wait(500);
    assert_eq!(told(answer).unwrap(), 8);
    assert_eq!(predictor.call_count(), 3);
}

// --- Status ---

#[test]
fn test_pool_status_length_matches_pool_size() {
    let batcher = get_batcher(EchoPredictor, config(4, 100, 3), no_obs());
    assert_eq!(batcher.pool_status().len(), 3);
}

#[test]
fn test_workers_initially_waiting() {
    let batcher = get_batcher(EchoPredictor, config(4, 100, 2), no_obs());
    for WorkerSnapshot { status, queue_len } in batcher.pool_status() {
        assert_eq!(status, WorkerStatus::Waiting);
        assert_eq!(queue_len, 0);
    }
}

#[test]
fn test_worker_status_valid_index() {
    let batcher = get_batcher(EchoPredictor, config(4, 100, 2), no_obs());
    assert!(batcher.worker_status(0).is_some());
    assert!(batcher.worker_status(1).is_some());
}

#[test]
fn test_worker_status_out_of_bounds() {
    let batcher = get_batcher(EchoPredictor, config(4, 100, 2), no_obs());
    assert!(batcher.worker_status(2).is_none());
}

// --- Observability ---

#[test]
fn test_metrics_capacity_trigger() {
    let metrics = TestMetrics::new();
    let mut batcher = get_batcher(EchoPredictor, config(4, 10_000, 1), with_obs(&metrics));
    for answer in batcher.submit_all(0..4) {
        told(answer).unwrap();
    }
    assert_eq!(metrics.capacity_triggers(), 1);
    assert_eq!(metrics.timeout_triggers(), 0);
    assert_eq!(metrics.ok_completions(), 1);
    assert_eq!(metrics.err_completions(), 0);
}

#[test]
fn test_metrics_timeout_trigger() {
    let metrics = TestMetrics::new();
    let mut batcher = get_batcher(EchoPredictor, config(8, 50, 1), with_obs(&metrics));
    let answer = batcher.submit(1).unwrap();
    batcher.pump();
    batcher.wait(50);
    told(answer).unwrap();
    assert_eq!(metrics.timeout_triggers(), 1);
    assert_eq!(metrics.capacity_triggers(), 0);
    assert_eq!(metrics.ok_completions(), 1);
    assert_eq!(metrics.err_completions(), 0);
}

#[test]
fn test_metrics_err_completion() {
    let metrics = TestMetrics::new();
    let mut batcher = get_batcher(FailPredictor, config(1, 50, 1), with_obs(&metrics));
    let answer = batcher.submit(0).unwrap();
    batcher.pump();
    assert!(told(answer).is_err());
    assert_eq!(metrics.err_completions(), 1);
    assert_eq!(metrics.ok_completions(), 0);
}

#[test]
fn test_metrics_request_timeout() {
    let metrics = TestMetrics::new();
    // Large batch_size and batch_timeout so the worker won't fire on its own.
    let mut batcher = get_batcher(EchoPredictor, config(8, 10_000, 1), with_obs(&metrics));
    let mut answer = batcher.submit(0).unwrap();
    batcher.pump();
    batcher.wait(20);
    let race = match answer.try_recv() {
        Ok(result) => Race::Finished(handle_recv(Ok(result))),
        Err(_) => Race::TimedOut,
    };
    let (told, timed_out) = handle_race(race);
    if timed_out {
        metrics.on_request_timeout();
    }
    metrics.on_queue_depth(1);
    assert!(matches!(told, Err(BatchinfError::TimeoutError)));
    assert_eq!(metrics.request_timeouts(), 1);
}

// --- What befalls a batcher ---

#[test]
fn a_request_that_finishes_in_time_is_not_a_timeout() {
    let finished: Result<u64, BatchinfError<TestError>> = Ok(5);
    let (told, timed_out) = handle_race(Race::Finished(finished));
    assert_eq!(told.unwrap(), 5);
    assert!(!timed_out);
}

#[test]
fn a_queue_that_is_full_is_told_of() {
    let mut batcher = get_batcher(EchoPredictor, config(2, 50, 1), no_obs());
    let _first = batcher.submit(0).unwrap();
    let _second = batcher.submit(1).unwrap();
    assert!(matches!(batcher.submit(2), Err(BatchinfError::QueueFullError)));
}

#[test]
fn a_pool_that_has_exited_is_told_of() {
    for pool_size in [1, 3] {
        let mut batcher = get_batcher(EchoPredictor, config(2, 50, pool_size), no_obs());
        for state in batcher.states.iter_mut() {
            state.apply(StateChange::Status(WorkerStatus::Exit));
        }
        assert!(matches!(batcher.submit(0), Err(BatchinfError::NoAvailableWorkersError)));
    }
}

#[test]
fn a_worker_flushes_its_batch_before_it_exits() {
    let mut batcher = get_batcher(EchoPredictor, config(8, 50, 1), no_obs());
    let answers = batcher.submit_all(0..3);
    let change = batcher.workers[0].queue.set_exit();
    batcher.states[0].apply(change);
    batcher.pump();
    assert!(batcher.workers[0].exited);
    assert_eq!(batcher.worker_status(0).unwrap().status, WorkerStatus::Exit);
    let results: Vec<u64> = answers.into_iter().map(|answer| told(answer).unwrap()).collect();
    assert_eq!(results, vec![0, 1, 2]);
}

#[test]
fn a_crashed_worker_answers_nobody_and_starts_over() {
    let mut batcher = get_batcher(EchoPredictor, config(8, 50, 1), no_obs());
    let answers = batcher.submit_all(0..2);
    batcher.states[0].apply(StateChange::Status(WorkerStatus::Running));
    batcher.states[0].apply(after_inference(true).unwrap());
    batcher.workers[0].buffer = WorkerBuffer::with_capacity(8);
    for answer in answers {
        assert!(matches!(told(answer), Err(BatchinfError::InternalError)));
    }
    assert!(matches!(batcher.submit(2), Err(BatchinfError::NoAvailableWorkersError)));
    let change = confirm_restart(&batcher.worker_status(0).unwrap()).unwrap();
    batcher.states[0].apply(change);
    let answer = batcher.submit(3).unwrap();
    batcher.pump();
    batcher.wait(50);
    assert_eq!(told(answer).unwrap(), 3);
}

#[test]
fn a_wrong_number_of_outputs_is_told_to_every_caller() {
    let metrics = TestMetrics::new();
    let mut batcher = get_batcher(ShortPredictor, config(2, 50, 1), with_obs(&metrics));
    for answer in batcher.submit_all(5..7) {
        assert!(matches!(told(answer), Err(BatchinfError::InvalidPredictorOutput)));
    }
    assert_eq!(metrics.err_completions(), 1);
    assert_eq!(metrics.ok_completions(), 0);
}

#[test]
fn every_request_is_run_once_and_in_order() {
    let predictor = RecordingPredictor::new();
    let mut batcher = get_batcher(predictor.clone(), config(3, 50, 1), no_obs());
    let mut answers = batcher.submit_all(0..4);
    batcher.wait(50);
    answers.extend(batcher.submit_all(4..9));
    let change = batcher.workers[0].queue.set_exit();
    batcher.states[0].apply(change);
    batcher.pump();
    assert!(batcher.workers[0].exited);
    assert_eq!(
        predictor.batches(),
        vec![vec![0, 1, 2], vec![3], vec![4, 5, 6], vec![7, 8]]
    );
    let results: Vec<u64> = answers.into_iter().map(|answer| told(answer).unwrap()).collect();
    assert_eq!(results, (0..9).collect::<Vec<u64>>());
}

#[test]
fn a_caller_that_gives_up_does_not_hold_up_its_batch() {
    let mut batcher = get_batcher(EchoPredictor, config(4, 50, 1), no_obs());
    let mut answers = batcher.submit_all(0..3);
    drop(answers.remove(1));
    answers.extend(batcher.submit_all(3..4));
    let results: Vec<u64> = answers.into_iter().map(|answer| told(answer).unwrap()).collect();
    assert_eq!(results, vec![0, 2, 3]);
}

#[test]
fn a_trickle_of_requests_does_not_put_off_the_batch() {
    let mut batcher = get_batcher(EchoPredictor, config(100, 50, 1), no_obs());
    let mut first = batcher.submit_all(0..1);
    for i in 1..5 {
        batcher.wait(10);
        batcher.submit_all(i..i + 1);
        assert!(first[0].try_recv().is_err());
    }
    batcher.wait(10);
    assert_eq!(first[0].try_recv().unwrap().unwrap(), 0);
}

#[test]
fn a_batch_never_exceeds_its_size() {
    let mut batcher = get_batcher(EchoPredictor, config(1, 50, 1), no_obs());
    let _first = batcher.submit(0).unwrap();
    batcher.pump();
    assert_eq!(batcher.worker_status(0).unwrap().queue_len, 0);
    let mut larger = get_batcher(EchoPredictor, config(3, 50, 1), no_obs());
    for i in 0..10 {
        larger.submit_all(i..i + 1);
        assert!(larger.worker_status(0).unwrap().queue_len < 3);
    }
}

#[test]
fn zero_is_no_size() {
    assert!(NonZeroU64::new(0).is_none());
    assert_eq!(NonZeroU64::new(7).unwrap().get(), 7);
    let inner = InnerConfig::from(config(4, 100, 2));
    assert_eq!((inner.size, inner.timeout), (4, 100));
}

#[test]
fn a_plan_holds_a_channel_of_one_batch() {
    let plan = plan_batcher(&config(4, 100, 3));
    assert_eq!(plan.channel_size, 4);
    assert_eq!(plan.workers.len(), 3);
    for worker in plan.workers {
        assert_eq!((worker.capacity(), worker.timeout()), (4, 100));
    }
}
