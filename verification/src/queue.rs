//! The sending side of a worker's queue.
use tokio::sync::mpsc::error::TrySendError;
use tokio::sync::mpsc::Sender;
use vstd::prelude::*;

use crate::state::{StateChange, WorkerStatus};

verus! {

/// `tokio::sync::mpsc::Sender`: the sending half of a bounded channel, which other tasks share.
/// Nothing inside it is read.
#[verifier::external_type_specification]
#[verifier::external_body]
#[verifier::reject_recursive_types(T)]
pub struct ExSender<T>(tokio::sync::mpsc::Sender<T>);

/// What became of a message that was offered to a worker.
#[derive(Debug)]
pub enum QueuePushResult<M> {
    /// The queue took the message.
    Success,
    /// The queue is full. The message is handed back.
    QueueFull(M),
    /// The queue is closed. The message is handed back.
    QueueClosed(M),
}

impl<M> QueuePushResult<M> {
    /// Whether the message was taken or is handed back as it was.
    pub open spec fn keeps(self, msg: M) -> bool {
        match self {
            QueuePushResult::Success => true,
            QueuePushResult::QueueFull(back) => back == msg,
            QueuePushResult::QueueClosed(back) => back == msg,
        }
    }
}

/// Calls `tokio::sync::mpsc::Sender::try_send`, which never waits: it takes the message, or fails
/// because the channel is full or closed, and then the error holds the very message that was
/// passed. Which of the three it is depends on what the other tasks have done to the channel, so
/// nothing is claimed of that.
#[verifier::external_body]
pub fn try_send<M>(queue: &Sender<M>, msg: M) -> (result: QueuePushResult<M>)
    ensures
        result.keeps(msg),
{
    match queue.try_send(msg) {
        Ok(()) => QueuePushResult::Success,
        Err(TrySendError::Full(back)) => QueuePushResult::QueueFull(back),
        Err(TrySendError::Closed(back)) => QueuePushResult::QueueClosed(back),
    }
}

/// Calls `tokio::sync::mpsc::channel` for a channel of one message and drops its receiving half,
/// which leaves a queue that nobody receives from. The channel is opaque, so that its receiving
/// half is gone cannot be stated of it, and nothing is claimed.
#[verifier::external_body]
pub fn dead_queue<M>() -> (queue: Sender<M>) {
    tokio::sync::mpsc::channel(1).0
}

/// Whether a worker with this status takes no requests any more.
pub open spec fn gone(status: WorkerStatus) -> bool {
    status is Exit || status is Crashed
}

/// The queue of one worker, as the pool holds it.
#[derive(Debug)]
#[verifier::reject_recursive_types(M)]
pub struct WorkerRef<M> {
    worker_queue: Sender<M>,
}

impl<M> WorkerRef<M> {
    /// The queue.
    pub closed spec fn queue(&self) -> Sender<M> {
        self.worker_queue
    }

    /// A reference to the worker that receives from the queue.
    pub fn new(worker_queue: Sender<M>) -> (worker: WorkerRef<M>)
        ensures
            worker.queue() == worker_queue,
    {
        WorkerRef { worker_queue }
    }

    /// Offers a message to the worker, whose status has just been read. A worker that is gone is
    /// offered nothing; to any other the message is sent, and the result is that of sending it.
    pub fn push(&self, status: WorkerStatus, msg: M) -> (result: QueuePushResult<M>)
        ensures
            result.keeps(msg),
            gone(status) ==> result == QueuePushResult::QueueClosed(msg),
            !gone(status) ==> call_ensures(try_send::<M>, (&self.queue(), msg), result),
    {
        match status {
            WorkerStatus::Exit => QueuePushResult::QueueClosed(msg),
            WorkerStatus::Crashed => QueuePushResult::QueueClosed(msg),
            WorkerStatus::Waiting => try_send(&self.worker_queue, msg),
            WorkerStatus::Running => try_send(&self.worker_queue, msg),
        }
    }

    /// Swaps in another queue: that of the restarted worker, or one that nobody receives from. The
    /// queue of before is let go of, so that the worker that receives from it sees it close.
    pub fn replace_queue(&mut self, worker_queue: Sender<M>)
        ensures
            final(self).queue() == worker_queue,
    {
        self.worker_queue = worker_queue;
    }

    /// Tells the worker to exit: gives the change of its word, and lets go of its queue, so that
    /// the worker flushes what it has and leaves. A queue that nobody receives from takes the place
    /// of the queue.
    pub fn set_exit(&mut self) -> (change: StateChange)
        ensures
            change == StateChange::Status(WorkerStatus::Exit),
            call_ensures(dead_queue::<M>, (), final(self).queue()),
    {
        self.replace_queue(dead_queue());
        StateChange::Status(WorkerStatus::Exit)
    }
}

} // verus!
