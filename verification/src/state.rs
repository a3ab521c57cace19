//! A worker's state: its status and its queue length, packed into one word.
//!
//! The two most significant bits of the word hold the status and the other 62 bits hold the queue
//! length, so that one read of the word shows both at the same moment. Every change that a worker
//! or a supervisor makes is a function from one word to the next: a word that is shared between
//! tasks is changed by applying that function until no other task has come in between.
use vstd::prelude::*;

use crate::config::InnerConfig;

verus! {

/// The status key of a worker that accumulates requests.
pub const WAITING: u8 = 0;

/// The status key of a worker that has exited.
pub const EXIT: u8 = 1;

/// The status key of a worker that runs inference.
pub const RUNNING_INFERENCE: u8 = 2;

/// The status key of a worker whose inference panicked.
pub const CRASHED: u8 = 3;

/// Masks the status bits of a word, which leaves the queue length.
pub const QUEUE_MASK: u64 = 0x3FFF_FFFF_FFFF_FFFF;

/// The number of queue lengths that a word can hold, which is the weight of a status key in it.
pub const QUEUE_SPAN: u64 = 0x4000_0000_0000_0000;

/// The operational state of an inference worker.
#[derive(Debug, Clone, Copy, PartialEq, Eq, Structural)]
pub enum WorkerStatus {
    /// Accumulating requests into the next batch.
    Waiting,
    /// The worker has exited and is no longer accepting requests.
    Exit,
    /// Currently running inference on a batch.
    Running,
    /// Inference panicked. The supervisor restarts the worker.
    Crashed,
}

impl WorkerStatus {
    /// The key of a status.
    pub open spec fn key(self) -> u8 {
        match self {
            WorkerStatus::Waiting => WAITING,
            WorkerStatus::Exit => EXIT,
            WorkerStatus::Running => RUNNING_INFERENCE,
            WorkerStatus::Crashed => CRASHED,
        }
    }

    /// The status that has a key.
    pub open spec fn of_key(key: u8) -> WorkerStatus {
        if key == WAITING {
            WorkerStatus::Waiting
        } else if key == EXIT {
            WorkerStatus::Exit
        } else if key == RUNNING_INFERENCE {
            WorkerStatus::Running
        } else {
            WorkerStatus::Crashed
        }
    }

    /// The status whose key is one higher, and `Waiting` after the last one.
    pub open spec fn succ(self) -> WorkerStatus {
        match self {
            WorkerStatus::Waiting => WorkerStatus::Exit,
            WorkerStatus::Exit => WorkerStatus::Running,
            WorkerStatus::Running => WorkerStatus::Crashed,
            WorkerStatus::Crashed => WorkerStatus::Waiting,
        }
    }

    /// The status that has the key `state`. There are four keys.
    pub fn from_key(state: u8) -> (status: WorkerStatus)
        requires
            state <= CRASHED,
        ensures
            status == WorkerStatus::of_key(state),
            status.key() == state,
    {
        if state == WAITING {
            WorkerStatus::Waiting
        } else if state == EXIT {
            WorkerStatus::Exit
        } else if state == RUNNING_INFERENCE {
            WorkerStatus::Running
        } else {
            WorkerStatus::Crashed
        }
    }
}

impl From<WorkerStatus> for u8 {
    fn from(state: WorkerStatus) -> (key: u8) {
        match state {
            WorkerStatus::Waiting => WAITING,
            WorkerStatus::Exit => EXIT,
            WorkerStatus::Running => RUNNING_INFERENCE,
            WorkerStatus::Crashed => CRASHED,
        }
    }
}

impl vstd::std_specs::convert::FromSpecImpl<WorkerStatus> for u8 {
    open spec fn obeys_from_spec() -> bool {
        true
    }

    open spec fn from_spec(state: WorkerStatus) -> u8 {
        state.key()
    }
}

/// A point-in-time snapshot of a worker's state.
///
/// Reflects the state at the moment that the word was read; the worker may have advanced by the
/// time the snapshot is.
#[derive(Debug, Clone, Copy, PartialEq, Eq, Structural)]
pub struct WorkerSnapshot {
    /// The worker's current operational status.
    pub status: WorkerStatus,
    /// Number of requests accumulated in the current batch, up to the batch size.
    pub queue_len: u64,
}

impl WorkerSnapshot {
    /// What a word holds: a status and a queue length of 62 bits.
    pub open spec fn packed(self) -> int {
        self.status.key() * QUEUE_SPAN + self.queue_len
    }

    /// Whether the queue length fits beside the status.
    pub open spec fn fits(self) -> bool {
        self.queue_len < QUEUE_SPAN
    }

    /// The snapshot after one more request has been counted. Past the last queue length the count
    /// would carry into the status bits.
    pub open spec fn counted(self) -> WorkerSnapshot {
        if self.queue_len + 1 < QUEUE_SPAN {
            WorkerSnapshot { queue_len: (self.queue_len + 1) as u64, ..self }
        } else {
            WorkerSnapshot { status: self.status.succ(), queue_len: 0 }
        }
    }

    /// The snapshot with another status and the same queue length.
    pub open spec fn with_status(self, status: WorkerStatus) -> WorkerSnapshot {
        WorkerSnapshot { status, ..self }
    }

    /// The snapshot of a worker that has just started.
    pub open spec fn idle() -> WorkerSnapshot {
        WorkerSnapshot { status: WorkerStatus::Waiting, queue_len: 0 }
    }

    /// The snapshot after `change`.
    pub open spec fn after(self, change: StateChange) -> WorkerSnapshot {
        match change {
            StateChange::Counted => self.counted(),
            StateChange::Status(status) => self.with_status(status),
            StateChange::Reset => WorkerSnapshot::idle(),
        }
    }
}

/// A change of a worker's word, as one indivisible step.
#[derive(Debug, Clone, Copy, PartialEq, Eq, Structural)]
pub enum StateChange {
    /// One more request is in the batch.
    Counted,
    /// The status becomes the one given; the queue length stays.
    Status(WorkerStatus),
    /// The queue is empty and the status is `Waiting`.
    Reset,
}

/// A worker's word after a sequence of changes.
pub open spec fn changed(snapshot: WorkerSnapshot, changes: Seq<StateChange>) -> WorkerSnapshot
    decreases changes.len(),
{
    if changes.len() == 0 {
        snapshot
    } else {
        changed(snapshot, changes.drop_last()).after(changes.last())
    }
}

/// A worker's word after a change, if there is one.
pub open spec fn changed_once(
    snapshot: WorkerSnapshot,
    change: Option<StateChange>,
) -> WorkerSnapshot {
    match change {
        Some(change) => snapshot.after(change),
        None => snapshot,
    }
}

/// The word of a worker, beside the configuration that never changes.
#[derive(Debug, Clone, Copy)]
pub struct WorkerStateInner {
    state: u64,
    config: InnerConfig,
}

impl WorkerStateInner {
    /// The word.
    pub closed spec fn word(&self) -> u64 {
        self.state
    }

    /// The configuration.
    pub closed spec fn config(&self) -> InnerConfig {
        self.config
    }

    /// The word of a worker that has just started.
    pub fn new(config: InnerConfig) -> (inner: WorkerStateInner)
        ensures
            inner.word() == 0,
            inner.config() == config,
    {
        WorkerStateInner { state: 0, config }
    }
}

/// A worker's state.
#[derive(Debug, Clone, Copy)]
pub struct WorkerState {
    inner: WorkerStateInner,
}

/// The bit operations that split a word give its status key and its queue length.
proof fn lemma_word_splits(word: u64)
    ensures
        word >> 62 == word / QUEUE_SPAN,
        word & QUEUE_MASK == word % QUEUE_SPAN,
        (word >> 62) as u8 == word / QUEUE_SPAN,
        word / QUEUE_SPAN <= 3,
{
    assert(word >> 62 == word / 0x4000_0000_0000_0000u64) by (bit_vector);
    assert(word & 0x3FFF_FFFF_FFFF_FFFF == word % 0x4000_0000_0000_0000u64) by (bit_vector);
    let high: u64 = word >> 62;
    assert(high <= 3 ==> high as u8 == high) by (bit_vector);
}

/// A status key in the two upper bits and a queue length in the others make up one word.
proof fn lemma_word_joins(key: u64, queue_len: u64)
    requires
        key <= 3,
        queue_len < QUEUE_SPAN,
    ensures
        queue_len | (key << 62) == key * QUEUE_SPAN + queue_len,
{
    assert(queue_len | (key << 62) == key * 0x4000_0000_0000_0000u64 + queue_len) by (bit_vector)
        requires
            key <= 3,
            queue_len < 0x4000_0000_0000_0000u64,
    ;
}

/// The snapshot that a word holds.
pub open spec fn unpacked(word: u64) -> WorkerSnapshot {
    WorkerSnapshot {
        status: WorkerStatus::of_key((word / QUEUE_SPAN) as u8),
        queue_len: word % QUEUE_SPAN,
    }
}

/// Every word holds exactly one snapshot: what it unpacks to packs to the word again, and no other
/// snapshot that fits does.
pub proof fn law_word_holds_one_snapshot(word: u64, other: WorkerSnapshot)
    ensures
        unpacked(word).fits(),
        unpacked(word).packed() == word,
        other.fits() && other.packed() == word ==> other == unpacked(word),
{
}

impl WorkerState {
    /// The status and the queue length.
    pub closed spec fn view(&self) -> WorkerSnapshot {
        unpacked(self.inner.state)
    }

    /// The configuration.
    pub closed spec fn config(&self) -> InnerConfig {
        self.inner.config
    }

    /// The state of a worker that has just started.
    pub fn new(config: InnerConfig) -> (state: WorkerState)
        ensures
            state@ == WorkerSnapshot::idle(),
            state.config() == config,
    {
        proof {
            law_word_holds_one_snapshot(0, WorkerSnapshot::idle());
        }
        WorkerState { inner: WorkerStateInner::new(config) }
    }

    /// The state that a word holds.
    pub fn from_word(word: u64, config: InnerConfig) -> (state: WorkerState)
        ensures
            state@ == unpacked(word),
            state.config() == config,
    {
        WorkerState { inner: WorkerStateInner { state: word, config } }
    }

    /// The word that holds the state.
    pub fn word(&self) -> (word: u64)
        ensures
            word == self@.packed(),
            unpacked(word) == self@,
    {
        proof {
            law_word_holds_one_snapshot(self.inner.state, self@);
        }
        self.inner.state
    }

    /// The batch size.
    pub fn capacity(&self) -> (size: u64)
        ensures
            size == self.config().size,
    {
        self.inner.config.size
    }

    /// The batch timeout in milliseconds.
    pub fn timeout(&self) -> (millis: u64)
        ensures
            millis == self.config().timeout,
    {
        self.inner.config.timeout
    }

    /// Counts one more request.
    pub fn increment_len(&mut self)
        ensures
            final(self)@ == old(self)@.counted(),
            final(self).config() == old(self).config(),
    {
        let next: u64 = self.inner.state.wrapping_add(1);
        proof {
            let before = self@;
            law_word_holds_one_snapshot(self.inner.state, before);
            law_word_holds_one_snapshot(next, before.counted());
        }
        self.inner.state = next;
    }

    /// Changes the status and keeps the queue length.
    pub fn set_state(&mut self, state: WorkerStatus)
        ensures
            final(self)@ == old(self)@.with_status(state),
            final(self).config() == old(self).config(),
    {
        let state_key: u8 = u8::from(state);
        let key: u64 = state_key as u64;
        // The two upper bits are cleared first, and the status bits set in their place.
        let next: u64 = (self.inner.state & QUEUE_MASK) | (key << 62);
        proof {
            let before = self@;
            let word: u64 = self.inner.state;
            law_word_holds_one_snapshot(word, before);
            lemma_word_splits(word);
            lemma_word_joins(key, word & QUEUE_MASK);
            law_word_holds_one_snapshot(next, before.with_status(state));
        }
        self.inner.state = next;
    }

    /// The status.
    pub fn get_state(&self) -> (status: WorkerStatus)
        ensures
            status == self@.status,
    {
        proof {
            law_word_holds_one_snapshot(self.inner.state, self@);
            lemma_word_splits(self.inner.state);
        }
        WorkerStatus::from_key((self.inner.state >> 62) as u8)
    }

    /// The status and the queue length, as of one moment.
    pub fn snapshot(&self) -> (snapshot: WorkerSnapshot)
        ensures
            snapshot == self@,
            snapshot.fits(),
    {
        proof {
            law_word_holds_one_snapshot(self.inner.state, self@);
            lemma_word_splits(self.inner.state);
        }
        let status = WorkerStatus::from_key((self.inner.state >> 62) as u8);
        let queue_len: u64 = self.inner.state & QUEUE_MASK;
        WorkerSnapshot { status, queue_len }
    }

    /// Empties the queue, which also puts the worker back to `Waiting`.
    pub fn reset_queue_len(&mut self)
        ensures
            final(self)@ == WorkerSnapshot::idle(),
            final(self).config() == old(self).config(),
    {
        proof {
            law_word_holds_one_snapshot(0, WorkerSnapshot::idle());
        }
        self.inner.state = 0;
    }

    /// Makes one change.
    pub fn apply(&mut self, change: StateChange)
        ensures
            final(self)@ == old(self)@.after(change),
            final(self).config() == old(self).config(),
    {
        match change {
            StateChange::Counted => self.increment_len(),
            StateChange::Status(status) => self.set_state(status),
            StateChange::Reset => self.reset_queue_len(),
        }
    }
}

/// A status is the one that has its key.
pub proof fn law_status_key_round_trip(status: WorkerStatus, key: u8)
    ensures
        status.key() <= CRASHED,
        WorkerStatus::of_key(status.key()) == status,
        key <= CRASHED ==> WorkerStatus::of_key(key).key() == key,
{
}

/// A request that is counted and a status that is set at the same time are both kept, whichever
/// comes first.
pub proof fn law_count_and_status_commute(snapshot: WorkerSnapshot, status: WorkerStatus)
    requires
        snapshot.queue_len + 1 < QUEUE_SPAN,
    ensures
        snapshot.after(StateChange::Counted).after(StateChange::Status(status)) == snapshot.after(
            StateChange::Status(status),
        ).after(StateChange::Counted),
        snapshot.after(StateChange::Counted).after(StateChange::Status(status)).status == status,
        snapshot.after(StateChange::Counted).after(StateChange::Status(status)).queue_len
            == snapshot.queue_len + 1,
{
}

/// Requests that are counted one after the other are all kept, and the status stays.
proof fn lemma_counts_add_up(snapshot: WorkerSnapshot, changes: Seq<StateChange>)
    requires
        forall|i: int| 0 <= i < changes.len() ==> #[trigger] changes[i] is Counted,
        snapshot.queue_len + changes.len() < QUEUE_SPAN,
    ensures
        changed(snapshot, changes).status == snapshot.status,
        changed(snapshot, changes).queue_len == snapshot.queue_len + changes.len(),
    decreases changes.len(),
{
    if changes.len() > 0 {
        let before = changes.drop_last();
        assert forall|i: int| 0 <= i < before.len() implies #[trigger] before[i] is Counted by {
            assert(changes[i] is Counted);
        }
        lemma_counts_add_up(snapshot, before);
        assert(changes[changes.len() - 1] is Counted);
    }
}

/// Any number of requests may be counted while a status is set, some before it and some after, in
/// whatever order the changes of the word happen: the status is the one that was set, and every
/// request is counted.
pub proof fn law_set_state_keeps_every_count(
    snapshot: WorkerSnapshot,
    changes: Seq<StateChange>,
    at: int,
    status: WorkerStatus,
)
    requires
        0 <= at < changes.len(),
        changes[at] == StateChange::Status(status),
        forall|i: int| 0 <= i < changes.len() && i != at ==> #[trigger] changes[i] is Counted,
        snapshot.queue_len + changes.len() - 1 < QUEUE_SPAN,
    ensures
        changed(snapshot, changes) == (WorkerSnapshot {
            status,
            queue_len: (snapshot.queue_len + changes.len() - 1) as u64,
        }),
    decreases changes.len(),
{
    let before = changes.drop_last();
    assert forall|i: int|
        0 <= i < before.len() && i != at implies #[trigger] before[i] is Counted by {
        assert(changes[i] is Counted);
    }
    if at == changes.len() - 1 {
        lemma_counts_add_up(snapshot, before);
    } else {
        assert(before[at] == changes[at]);
        law_set_state_keeps_every_count(snapshot, before, at, status);
        assert(changes[changes.len() - 1] is Counted);
    }
}

} // verus!
