//! The contract for emitting metrics.
use core::time::Duration;
use vstd::prelude::*;

verus! {

/// What triggered a batch to fire.
#[derive(Debug, Clone, Copy, PartialEq, Eq, Structural)]
pub enum BatchTrigger {
    /// The batch size was reached.
    Capacity,
    /// The batch timed out.
    Timeout,
}

/// A metrics backend.
pub trait BatcherMetrics: core::fmt::Debug + Send + Sync + 'static {
    /// Fires at the point a batch is triggered to fire. This may provide some information that can
    /// help tune the batch size and the timeout of a batch.
    fn on_batch_trigger(&self, batch_size: usize, trigger: BatchTrigger);

    /// Fires after a batch is complete and successful. Clocks how fast inference runs on a batch
    /// size.
    fn on_batch_complete_ok(&self, batch_size: usize, latency: Duration);

    /// Fires after a batch is complete and not successful.
    fn on_batch_complete_err(&self, batch_size: usize);

    /// Fires when an inference request that has a deadline of its own times out.
    fn on_request_timeout(&self);

    /// Fires in the supervisor and emits the total queue depth, which is the total number of
    /// inference requests waiting to be serviced. Does nothing unless it is implemented.
    fn on_queue_depth(&self, _queue_depth: usize) {
    }
}

/// What is measured of one batch.
#[derive(Debug, Clone, Copy, PartialEq, Eq, Structural)]
pub struct InfBatchMetrics {
    /// The number of requests in the batch.
    pub size: usize,
    /// How long inference took, in nanoseconds.
    pub latency: u64,
}

/// The metric that a finished batch gives rise to.
#[derive(Debug, Clone, Copy, PartialEq, Eq, Structural)]
pub enum BatchMetric {
    /// Inference gave one output for each request.
    CompleteOk(InfBatchMetrics),
    /// Inference gave an error or a wrong number of outputs, on this many requests.
    CompleteErr(usize),
}

} // verus!
