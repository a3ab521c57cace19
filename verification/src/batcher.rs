//! What a caller of the batcher is told.
use tokio::sync::oneshot::error::RecvError;
use vstd::prelude::*;

use crate::error::BatchinfError;

verus! {

/// What a caller gets when its answer has come, or will not come.
pub open spec fn received<O, E>(
    answer: Result<Result<O, BatchinfError<E>>, RecvError>,
) -> Result<O, BatchinfError<E>> {
    match answer {
        Ok(told) => told,
        Err(_) => Err(BatchinfError::InternalError),
    }
}

/// What a caller gets when its answer has come, or will not come because the sender was dropped.
pub fn handle_recv<O, E>(answer: Result<Result<O, BatchinfError<E>>, RecvError>) -> (told: Result<
    O,
    BatchinfError<E>,
>)
    ensures
        told == received(answer),
{
    match answer {
        Ok(told) => told,
        Err(dropped) => Err(BatchinfError::from(dropped)),
    }
}

/// How the race between a request and the caller's own deadline ended.
pub enum Race<T> {
    /// The request was done first.
    Finished(T),
    /// The deadline came first.
    TimedOut,
}

/// What a caller with a deadline of its own gets, and whether a request timeout is to be reported.
pub fn handle_race<O, E>(race: Race<Result<O, BatchinfError<E>>>) -> (told: (
    Result<O, BatchinfError<E>>,
    bool,
))
    ensures
        told.1 <==> race is TimedOut,
        told.0 == (match race {
            Race::Finished(result) => result,
            Race::TimedOut => Err(BatchinfError::TimeoutError),
        }),
{
    match race {
        Race::Finished(result) => (result, false),
        Race::TimedOut => (Err(BatchinfError::TimeoutError), true),
    }
}

} // verus!
