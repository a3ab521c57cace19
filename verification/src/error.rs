//! What a caller is told when a request has no output.
use tokio::sync::oneshot::error::RecvError;
use vstd::prelude::*;

verus! {

/// `tokio::sync::oneshot::error::RecvError`: the sender of an answer was dropped without
/// answering. Nothing inside it is read.
#[verifier::external_type_specification]
#[verifier::external_body]
pub struct ExRecvError(tokio::sync::oneshot::error::RecvError);

/// Error returned for an inference request, where `E` is the error of the inference backend.
#[derive(Debug, Clone)]
pub enum BatchinfError<E> {
    /// Inference returned an error. The error is propagated to every caller whose request was part
    /// of the failed batch.
    InferenceError(E),
    /// The worker exited before returning a result, typically caused by a panic during inference.
    InternalError,
    /// The request timed out before inference completed. The worker may still process the request;
    /// the result is discarded.
    TimeoutError,
    /// No live worker was found, or the one that was found has closed its queue in the meantime.
    NoAvailableWorkersError,
    /// The request was left to a worker whose queue is full. The caller should retry or apply
    /// backpressure.
    QueueFullError,
    /// Inference produced an invalid number of outputs for the given input.
    InvalidPredictorOutput,
}

impl<E> From<RecvError> for BatchinfError<E> {
    fn from(_err: RecvError) -> (error: BatchinfError<E>) {
        BatchinfError::InternalError
    }
}

impl<E> vstd::std_specs::convert::FromSpecImpl<RecvError> for BatchinfError<E> {
    open spec fn obeys_from_spec() -> bool {
        true
    }

    open spec fn from_spec(_err: RecvError) -> BatchinfError<E> {
        BatchinfError::InternalError
    }
}

} // verus!
