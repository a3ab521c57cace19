//! What a batcher is built from.
use vstd::prelude::*;

use crate::config::{BatcherConfig, InnerConfig};
use crate::state::{WorkerSnapshot, WorkerState};

verus! {

/// The parts of a batcher before its tasks are started.
#[derive(Debug)]
pub struct BatcherPlan {
    /// The state of each worker, by its position in the pool.
    pub workers: Vec<WorkerState>,
    /// How many requests can be queued for a worker, beside those in its batch.
    pub channel_size: usize,
}

/// Plans a batcher: `pool_size` workers that wait with empty queues, each with a channel that holds
/// one batch.
pub fn plan_batcher(config: &BatcherConfig) -> (plan: BatcherPlan)
    ensures
        plan.workers@.len() == config.pool_size.value(),
        forall|i: int|
            0 <= i < plan.workers@.len() ==> (#[trigger] plan.workers@[i])@
                == WorkerSnapshot::idle() && plan.workers@[i].config().size
                == config.batch_size.value() && plan.workers@[i].config().timeout
                == config.batch_timeout.value(),
        plan.channel_size == config.batch_size.value() as usize,
{
    let conf = InnerConfig::from(*config);
    let pool_size: u64 = config.pool_size.get();
    let mut workers: Vec<WorkerState> = Vec::new();
    let mut made: u64 = 0;
    while made < pool_size
        invariant
            made <= pool_size,
            workers@.len() == made,
            forall|i: int|
                0 <= i < workers@.len() ==> (#[trigger] workers@[i])@ == WorkerSnapshot::idle()
                    && workers@[i].config() == conf,
        decreases pool_size - made,
    {
        workers.push(WorkerState::new(conf));
        made = made + 1;
    }
    BatcherPlan { workers, channel_size: config.batch_size.get() as usize }
}

} // verus!
