//! Framework agnostic static inference batching.
//!
//! Static inference batching queues up individual requests and runs inference across many of them
//! at once, which raises the throughput and the device utilization of a stateless model. A request
//! is queued on one worker of a pool; a worker fires its batch at the first of two occurrences,
//! the batch being full or the batch timing out.
//!
//! This crate holds everything that such a batcher decides: how a worker's state is packed and
//! changed, when a batch fires, which answer each caller gets, which worker a request is routed
//! to, which workers a supervisor restarts and when a shutdown is complete. It works on plain
//! values and never waits. The runtime around it owns the tasks, the clock, the locks and the
//! channels: it reports what happened and carries out what it is told.

pub mod batcher;
pub mod config;
pub mod control_plane;
pub mod embedding;
pub mod error;
pub mod laws;
pub mod lifecycle;
pub mod observability;
pub mod pool;
pub mod predictor;
pub mod queue;
pub mod setup;
pub mod state;
pub mod worker;

pub use config::{BatcherConfig, InnerConfig, NonZeroU64};
pub use error::BatchinfError;
pub use observability::{BatchTrigger, BatcherMetrics};
pub use predictor::Predictor;
pub use state::{StateChange, WorkerSnapshot, WorkerState, WorkerStatus};
