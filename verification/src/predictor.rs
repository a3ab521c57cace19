//! The inference backend that a user provides.
use vstd::prelude::*;

verus! {

/// An inference backend. It is cloned once per worker of the pool, so that each worker has isolated
/// resources to perform inference.
pub trait Predictor: Clone {
    /// One request.
    type Input: Send + Sync + 'static;

    /// The answer to one request.
    type Output: Send + Sync + 'static;

    /// Why a batch has no outputs. Every caller of the batch gets a clone.
    type Error: Clone + Send + Sync + 'static;

    /// Performs inference on a batch of examples. It is called once per batch, with the inputs in
    /// the order in which they arrived; each output must correspond to the input at the same index.
    /// A batch with more or fewer outputs than inputs gives nobody an output: its callers get
    /// [`crate::BatchinfError::InvalidPredictorOutput`].
    ///
    /// A panic here takes the worker down. Callers whose requests were in the batch get
    /// [`crate::BatchinfError::InternalError`], and the supervisor restarts the worker.
    fn predict_batch(&self, inp: &[Self::Input]) -> Result<Vec<Self::Output>, Self::Error>;
}

} // verus!
