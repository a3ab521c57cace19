//! A worker's word, and how it changes.
use vstd::prelude::*;

use crate::config::InnerConfig;
use crate::state::{
    changed, changed_once, StateChange, WorkerSnapshot, WorkerState, WorkerStateInner,
    WorkerStatus,
};

verus! {

/// A state is shown as it is, and its word holds the queue length and, in the two upper bits, the
/// status.
pub proof fn law_word_holds_status_and_count(
    state: &WorkerState,
    shown: WorkerSnapshot,
    status: WorkerStatus,
    word: u64,
    size: u64,
    millis: u64,
)
    requires
        call_ensures(WorkerState::snapshot, (state,), shown),
        call_ensures(WorkerState::get_state, (state,), status),
        call_ensures(WorkerState::word, (state,), word),
        call_ensures(WorkerState::capacity, (state,), size),
        call_ensures(WorkerState::timeout, (state,), millis),
    ensures
        shown == state@,
        status == shown.status,
        shown.queue_len == word % 0x4000_0000_0000_0000,
        status is Waiting <==> word < 0x4000_0000_0000_0000,
        status is Exit <==> 0x4000_0000_0000_0000 <= word < 0x8000_0000_0000_0000,
        status is Running <==> 0x8000_0000_0000_0000 <= word < 0xC000_0000_0000_0000,
        status is Crashed <==> 0xC000_0000_0000_0000 <= word,
        size == state.config().size,
        millis == state.config().timeout,
{
}

/// A word that is read as a state is written back as the same word, and the state carries the
/// configuration that was handed in.
pub proof fn law_word_is_read_and_written_back(
    word: u64,
    config: InnerConfig,
    state: WorkerState,
    written: u64,
)
    requires
        call_ensures(WorkerState::from_word, (word, config), state),
        call_ensures(WorkerState::word, (&state,), written),
    ensures
        written == word,
        state.config() == config,
{
}

/// A worker that has just been set up waits, with an empty queue, and its word is zero.
pub proof fn law_new_worker_waits(
    config: InnerConfig,
    state: WorkerState,
    inner: WorkerStateInner,
    word: u64,
)
    requires
        call_ensures(WorkerState::new, (config,), state),
        call_ensures(WorkerStateInner::new, (config,), inner),
        call_ensures(WorkerState::word, (&state,), word),
    ensures
        state@.status is Waiting,
        state@.queue_len == 0,
        state.config() == config,
        word == 0,
        inner.word() == 0,
        inner.config() == config,
{
}

/// Counting a request adds one to the queue length and keeps the status, as long as there is room
/// for the count. Past that the word goes on counting as one number.
pub proof fn law_counting_adds_one(state: &mut WorkerState)
    requires
        call_ensures(WorkerState::increment_len, (state,), ()) || call_ensures(
            WorkerState::apply,
            (state, StateChange::Counted),
            (),
        ),
    ensures
        old(state)@.queue_len < 0x3FFF_FFFF_FFFF_FFFF ==> final(state)@.queue_len == old(
            state,
        )@.queue_len + 1 && final(state)@.status == old(state)@.status,
        old(state)@.queue_len == 0x3FFF_FFFF_FFFF_FFFF ==> final(state)@.queue_len == 0 && match old(
            state,
        )@.status {
            WorkerStatus::Waiting => final(state)@.status is Exit,
            WorkerStatus::Exit => final(state)@.status is Running,
            WorkerStatus::Running => final(state)@.status is Crashed,
            WorkerStatus::Crashed => final(state)@.status is Waiting,
        },
        final(state).config() == old(state).config(),
{
}

/// Setting a status changes the status and nothing else.
pub proof fn law_setting_a_status_keeps_the_count(state: &mut WorkerState, status: WorkerStatus)
    requires
        call_ensures(WorkerState::set_state, (state, status), ()) || call_ensures(
            WorkerState::apply,
            (state, StateChange::Status(status)),
            (),
        ),
    ensures
        final(state)@.status == status,
        final(state)@.queue_len == old(state)@.queue_len,
        final(state).config() == old(state).config(),
{
}

/// Resetting leaves a worker that waits with an empty queue.
pub proof fn law_resetting_leaves_an_idle_worker(state: &mut WorkerState)
    requires
        call_ensures(WorkerState::reset_queue_len, (state,), ()) || call_ensures(
            WorkerState::apply,
            (state, StateChange::Reset),
            (),
        ),
    ensures
        final(state)@.status is Waiting,
        final(state)@.queue_len == 0,
        final(state).config() == old(state).config(),
{
}

/// The four statuses have the keys zero to three, both ways.
pub proof fn law_statuses_have_keys(status: WorkerStatus, key: u8, back: WorkerStatus)
    requires
        call_ensures(<u8 as From<WorkerStatus>>::from, (status,), key),
        call_ensures(WorkerStatus::from_key, (key,), back),
    ensures
        back == status,
        status is Waiting <==> key == 0,
        status is Exit <==> key == 1,
        status is Running <==> key == 2,
        status is Crashed <==> key == 3,
{
}

/// Changes of a word are made one after the other: no changes leave the word as it is, and changes
/// that come in two parts are the second part made after the first.
pub proof fn law_changes_are_made_in_order(
    snapshot: WorkerSnapshot,
    first: Seq<StateChange>,
    second: Seq<StateChange>,
    change: StateChange,
)
    ensures
        changed(snapshot, Seq::empty()) == snapshot,
        changed(snapshot, seq![change]) == snapshot.after(change),
        changed_once(snapshot, Some(change)) == snapshot.after(change),
        changed_once(snapshot, None) == snapshot,
        changed(snapshot, first + second) == changed(changed(snapshot, first), second),
    decreases second.len(),
{
    reveal_with_fuel(changed, 2);
    assert(seq![change].drop_last() =~= Seq::empty());
    if second.len() == 0 {
        assert(first + second =~= first);
    } else {
        law_changes_are_made_in_order(snapshot, first, second.drop_last(), change);
        assert((first + second).drop_last() =~= first + second.drop_last());
    }
}

} // verus!
