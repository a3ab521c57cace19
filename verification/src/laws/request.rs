//! What a batcher is built from, what a caller is told, and the requests of an embedding service.
use image::DynamicImage;
use tokio::sync::oneshot::error::RecvError;
use vstd::prelude::*;

use crate::batcher::{handle_race, handle_recv, Race};
use crate::config::{BatcherConfig, InnerConfig, NonZeroU64};
use crate::embedding::{
    channel_planes, decoded_planes, embed_status, flatten_batch, load_from_memory, resized_rgb,
};
use crate::error::BatchinfError;
use crate::setup::{plan_batcher, BatcherPlan};

verus! {

/// A number that is not zero is held as it is, and zero is not held.
pub proof fn law_number_is_held_as_it_is(value: u64, held: Option<NonZeroU64>, back: u64)
    requires
        call_ensures(NonZeroU64::new, (value,), held),
        held matches Some(number) ==> call_ensures(NonZeroU64::get, (&number,), back),
    ensures
        held is None <==> value == 0,
        held is Some ==> back == value,
{
}

/// Every worker carries the batch size and the batch timeout of the batcher.
pub proof fn law_worker_carries_size_and_timeout(
    config: BatcherConfig,
    inner: InnerConfig,
    size: u64,
    timeout: u64,
)
    requires
        call_ensures(<InnerConfig as From<BatcherConfig>>::from, (config,), inner),
        call_ensures(NonZeroU64::get, (&config.batch_size,), size),
        call_ensures(NonZeroU64::get, (&config.batch_timeout,), timeout),
    ensures
        inner.size == size,
        inner.timeout == timeout,
{
}

/// A batcher has as many workers as its pool size says. All of them wait with empty queues and
/// carry its batch size and timeout, and a channel has room for one batch.
pub proof fn law_plan_has_every_worker(
    config: &BatcherConfig,
    plan: BatcherPlan,
    pool_size: u64,
    size: u64,
    timeout: u64,
)
    requires
        call_ensures(plan_batcher, (config,), plan),
        call_ensures(NonZeroU64::get, (&config.pool_size,), pool_size),
        call_ensures(NonZeroU64::get, (&config.batch_size,), size),
        call_ensures(NonZeroU64::get, (&config.batch_timeout,), timeout),
    ensures
        plan.workers@.len() == pool_size,
        forall|i: int|
            0 <= i < pool_size ==> (#[trigger] plan.workers@[i])@.status is Waiting
                && plan.workers@[i]@.queue_len == 0 && plan.workers@[i].config().size == size
                && plan.workers@[i].config().timeout == timeout,
        size <= usize::MAX ==> plan.channel_size == size,
{
}

/// A caller is told its answer as it was sent. When no answer will come, it is told of an internal
/// error.
pub proof fn law_caller_is_told_its_answer<O, E>(
    answer: Result<Result<O, BatchinfError<E>>, RecvError>,
    told: Result<O, BatchinfError<E>>,
)
    requires
        call_ensures(handle_recv::<O, E>, (answer,), told),
    ensures
        answer matches Ok(sent) ==> told == sent,
        answer is Err ==> told == Err::<O, BatchinfError<E>>(BatchinfError::InternalError),
{
}

/// A sender that was dropped is an internal error.
pub proof fn law_dropped_sender_is_an_internal_error<E>(dropped: RecvError, error: BatchinfError<E>)
    requires
        call_ensures(<BatchinfError<E> as From<RecvError>>::from, (dropped,), error),
    ensures
        error is InternalError,
{
}

/// A caller with a deadline of its own is told what its request came to if that was in time. If it
/// was not, and only then, the caller is told of the timeout and the timeout is reported.
pub proof fn law_deadline_of_a_caller<O, E>(
    race: Race<Result<O, BatchinfError<E>>>,
    told: (Result<O, BatchinfError<E>>, bool),
)
    requires
        call_ensures(handle_race::<O, E>, (race,), told),
    ensures
        race matches Race::Finished(result) ==> told == (result, false),
        race is TimedOut ==> told == (
            Err::<O, BatchinfError<E>>(BatchinfError::TimeoutError),
            true,
        ),
{
}

/// Separating the color channels loses no pixel and moves none: of `n` pixels, the red value of
/// pixel `p` stands at `p`, its green value at `n + p` and its blue value at `2 * n + p`, and that
/// is all.
pub proof fn law_planes_hold_every_pixel(pixels: &[u8], planes: Vec<u8>)
    requires
        call_ensures(channel_planes, (pixels,), planes),
    ensures
        ({
            let n = (pixels@.len() / 3) as int;
            &&& planes@.len() == 3 * n
            &&& forall|p: int|
                0 <= p < n ==> #[trigger] pixels@[3 * p] == planes@[p] && pixels@[3 * p + 1]
                    == planes@[n + p] && pixels@[3 * p + 2] == planes@[2 * n + p]
        }),
{
    let n = (pixels@.len() / 3) as int;
    assert forall|p: int| 0 <= p < n implies #[trigger] pixels@[3 * p] == planes@[p]
        && pixels@[3 * p + 1] == planes@[n + p] && pixels@[3 * p + 2] == planes@[2 * n + p] by {
    }
}

/// What is handed to the model of an image is every pixel of the decoded image at the size of the
/// model, channel by channel, and nothing is handed to it exactly if the bytes were not decoded.
pub proof fn law_model_sees_the_whole_image(body: &[u8], planes: Option<Vec<u8>>)
    requires
        call_ensures(decoded_planes, (body,), planes),
    ensures
        planes is None ==> call_ensures(load_from_memory, (body,), None),
        planes matches Some(values) ==> exists|img: DynamicImage, pixels: Vec<u8>|
            {
                &&& #[trigger] call_ensures(load_from_memory, (body,), Some(img))
                &&& #[trigger] call_ensures(resized_rgb, (&img, 224u32), pixels)
                &&& pixels@.len() == 3 * 224 * 224
                &&& values@.len() == 3 * 224 * 224
                &&& forall|p: int|
                    0 <= p < 224 * 224 ==> #[trigger] pixels@[3 * p] == values@[p] && pixels@[3 * p
                        + 1] == values@[224 * 224 + p] && pixels@[3 * p + 2] == values@[2 * 224
                        * 224 + p]
            },
{
    if let Some(values) = planes {
        let (img, pixels) = choose|img: DynamicImage, pixels: Vec<u8>|
            {
                &&& #[trigger] call_ensures(load_from_memory, (body,), Some(img))
                &&& #[trigger] call_ensures(resized_rgb, (&img, 224u32), pixels)
                &&& values@ == crate::embedding::plane(pixels@, 0) + crate::embedding::plane(
                    pixels@,
                    1,
                ) + crate::embedding::plane(pixels@, 2)
            };
        assert forall|p: int| 0 <= p < 224 * 224 implies #[trigger] pixels@[3 * p] == values@[p]
            && pixels@[3 * p + 1] == values@[224 * 224 + p] && pixels@[3 * p + 2] == values@[2 * 224
            * 224 + p] by {
        }
    }
}

/// Inputs of the same length are laid side by side: item `j` of input `i` stands at
/// `i * len + j`, and that is all.
pub proof fn law_inputs_are_laid_side_by_side<T: Copy>(
    inputs: &[Vec<T>],
    flat: Vec<T>,
    len: nat,
)
    requires
        call_ensures(flatten_batch::<T>, (inputs,), flat),
        forall|i: int| 0 <= i < inputs@.len() ==> (#[trigger] inputs@[i])@.len() == len,
    ensures
        flat@.len() == inputs@.len() * len,
        forall|i: int, j: int|
            0 <= i < inputs@.len() && 0 <= j < len ==> flat@[i * len + j]
                == #[trigger] inputs@[i]@[j],
{
    lemma_flat_positions(inputs@.map_values(|input: Vec<T>| input@), len);
    assert forall|i: int, j: int| 0 <= i < inputs@.len() && 0 <= j < len implies flat@[i * len + j]
        == #[trigger] inputs@[i]@[j] by {
        assert(inputs@.map_values(|input: Vec<T>| input@)[i][j] == inputs@[i]@[j]);
    }
}

/// Inputs of any lengths are laid one behind the other, each in full.
pub proof fn law_inputs_are_laid_in_full<T: Copy>(inputs: &[Vec<T>], flat: Vec<T>)
    requires
        call_ensures(flatten_batch::<T>, (inputs,), flat),
    ensures
        flat@ == inputs@.map_values(|input: Vec<T>| input@).flatten(),
{
}

/// Where the items of sequences of one length stand when the sequences are joined.
proof fn lemma_flat_positions<T>(items: Seq<Seq<T>>, len: nat)
    requires
        forall|i: int| 0 <= i < items.len() ==> (#[trigger] items[i]).len() == len,
    ensures
        items.flatten().len() == items.len() * len,
        forall|i: int, j: int|
            0 <= i < items.len() && 0 <= j < len ==> items.flatten()[i * len + j]
                == #[trigger] items[i][j],
    decreases items.len(),
{
    items.lemma_flatten_and_flatten_alt_are_equivalent();
    if items.len() > 0 {
        let before = items.drop_last();
        before.lemma_flatten_and_flatten_alt_are_equivalent();
        assert forall|i: int| 0 <= i < before.len() implies (#[trigger] before[i]).len() == len by {
            assert(before[i] == items[i]);
        }
        lemma_flat_positions(before, len);
        let n = before.len() as int;
        assert(items.flatten() == before.flatten() + items.last());
        assert(items.len() * len == n * len + len) by (nonlinear_arith)
            requires
                items.len() == n + 1,
        ;
        assert forall|i: int, j: int|
            0 <= i < items.len() && 0 <= j < len implies items.flatten()[i * len + j]
            == #[trigger] items[i][j] by {
            if i < n {
                assert(i * len + j < n * len) by (nonlinear_arith)
                    requires
                        0 <= i < n,
                        0 <= j < len,
                ;
                assert(0 <= i * len) by (nonlinear_arith)
                    requires
                        0 <= i,
                        0 <= len,
                ;
                assert(before[i][j] == items[i][j]);
            }
        }
    }
}

/// A request whose image cannot be decoded is a bad one; one that was served is fine; one on which
/// inference failed is an error of the server; and with any other error the service is unavailable.
pub proof fn law_statuses_of_requests<O, E>(
    told: &Option<Result<O, BatchinfError<E>>>,
    status: u16,
)
    requires
        call_ensures(embed_status::<O, E>, (told,), status),
    ensures
        told is None ==> status == 400,
        told matches Some(Ok(_)) ==> status == 200,
        told matches Some(Err(BatchinfError::InferenceError(_))) ==> status == 500,
        told matches Some(Err(error)) ==> !(error is InferenceError) ==> status == 503,
{
}

} // verus!
