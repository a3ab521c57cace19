//! What an image embedding service does around its model, apart from the arithmetic on pixels: how
//! an image is decoded and laid out for the model, and which status a request is answered with.
use image::imageops::FilterType;
use image::DynamicImage;
use vstd::prelude::*;

use crate::error::BatchinfError;

verus! {

/// The side of the square image that the model takes.
pub const IMAGE_SIZE: usize = 224;

/// HTTP status of a request that was served.
pub const OK: u16 = 200;

/// HTTP status of a request whose image could not be decoded.
pub const BAD_REQUEST: u16 = 400;

/// HTTP status of a request on which inference failed.
pub const INTERNAL_SERVER_ERROR: u16 = 500;

/// HTTP status of a request that could not be served.
pub const SERVICE_UNAVAILABLE: u16 = 503;

/// `image::DynamicImage`: a decoded image. Nothing inside it is read.
#[verifier::external_type_specification]
#[verifier::external_body]
pub struct ExDynamicImage(image::DynamicImage);

/// Calls `image::load_from_memory`, which guesses the format of the bytes and decodes them: an
/// image, or none where it gives an error. Which bytes are an image, and of what, is for the
/// formats to say, and for the decoding hooks that the process has registered, so nothing is
/// claimed of that.
#[verifier::external_body]
pub fn load_from_memory(body: &[u8]) -> (img: Option<DynamicImage>) {
    image::load_from_memory(body).ok()
}

/// Calls `image::DynamicImage::resize_exact` with the Lanczos filter, then `to_rgb8` and
/// `into_raw`: the values of a square image with `side` pixels on each side, pixel after pixel and
/// row after row, each with its red, green and blue value. The values themselves come of floating
/// point arithmetic, and nothing is claimed of them.
#[verifier::external_body]
pub fn resized_rgb(img: &DynamicImage, side: u32) -> (pixels: Vec<u8>)
    requires
        0 < side <= 0x1000,
    ensures
        pixels@.len() == 3 * side * side,
{
    img.resize_exact(side, side, FilterType::Lanczos3).to_rgb8().into_raw()
}

/// Decodes an image, brings it to the size that the model takes, and separates its color channels.
/// There are none exactly if the bytes could not be decoded.
pub fn decoded_planes(body: &[u8]) -> (planes: Option<Vec<u8>>)
    ensures
        match planes {
            None => call_ensures(load_from_memory, (body,), None),
            Some(values) => {
                &&& values@.len() == 3 * IMAGE_SIZE * IMAGE_SIZE
                &&& exists|img: DynamicImage, pixels: Vec<u8>|
                    {
                        &&& #[trigger] call_ensures(load_from_memory, (body,), Some(img))
                        &&& #[trigger] call_ensures(
                            resized_rgb,
                            (&img, IMAGE_SIZE as u32),
                            pixels,
                        )
                        &&& values@ == plane(pixels@, 0) + plane(pixels@, 1) + plane(pixels@, 2)
                    }
            },
        },
{
    match load_from_memory(body) {
        None => None,
        Some(img) => {
            let pixels = resized_rgb(&img, IMAGE_SIZE as u32);
            Some(channel_planes(&pixels))
        },
    }
}

/// Lays the inputs of a batch side by side, one after the other.
pub fn flatten_batch<T: Copy>(inputs: &[Vec<T>]) -> (flat: Vec<T>)
    ensures
        flat@ == inputs@.map_values(|input: Vec<T>| input@).flatten(),
{
    let mut flat: Vec<T> = Vec::new();
    let ghost items = inputs@.map_values(|input: Vec<T>| input@);
    for i in 0..inputs.len()
        invariant
            items == inputs@.map_values(|input: Vec<T>| input@),
            flat@ == items.take(i as int).flatten(),
    {
        let input = &inputs[i];
        let ghost before = flat@;
        for j in 0..input.len()
            invariant
                flat@ == before + input@.take(j as int),
        {
            flat.push(input[j]);
            assert(flat@ =~= before + input@.take(j + 1));
        }
        proof {
            assert(input@.take(input@.len() as int) =~= input@);
            let seen = items.take(i + 1);
            assert(seen.drop_last() =~= items.take(i as int));
            seen.lemma_flatten_and_flatten_alt_are_equivalent();
            items.take(i as int).lemma_flatten_and_flatten_alt_are_equivalent();
        }
    }
    assert(items.take(inputs@.len() as int) =~= items);
    flat
}

/// One color channel of all pixels of an image, in the order of the pixels.
pub open spec fn plane(pixels: Seq<u8>, channel: int) -> Seq<u8> {
    Seq::new(pixels.len() / 3, |pixel: int| pixels[3 * pixel + channel])
}

/// Separates the color channels of an image: from pixel after pixel, with its red, green and blue
/// value, to plane after plane.
pub fn channel_planes(pixels: &[u8]) -> (planes: Vec<u8>)
    ensures
        planes@ == plane(pixels@, 0) + plane(pixels@, 1) + plane(pixels@, 2),
{
    let mut planes: Vec<u8> = Vec::with_capacity(pixels.len());
    append_plane(&mut planes, pixels, 0);
    append_plane(&mut planes, pixels, 1);
    append_plane(&mut planes, pixels, 2);
    planes
}

/// Appends one color channel of all pixels.
fn append_plane(planes: &mut Vec<u8>, pixels: &[u8], channel: usize)
    requires
        channel < 3,
    ensures
        final(planes)@ == old(planes)@ + plane(pixels@, channel as int),
{
    let len: usize = pixels.len();
    let count: usize = len / 3;
    let ghost before = planes@;
    for pixel in 0..count
        invariant
            channel < 3,
            len == pixels@.len(),
            count == len / 3,
            planes@ == before + plane(pixels@, channel as int).take(pixel as int),
    {
        planes.push(pixels[3 * pixel + channel]);
        assert(planes@ =~= before + plane(pixels@, channel as int).take(pixel + 1));
    }
    assert(plane(pixels@, channel as int).take(count as int) =~= plane(pixels@, channel as int));
}

/// The status of an embedding request: of one whose image could not be decoded, or else by what
/// the batcher told.
pub fn embed_status<O, E>(told: &Option<Result<O, BatchinfError<E>>>) -> (status: u16)
    ensures
        status == (match *told {
            None => BAD_REQUEST,
            Some(Ok(_)) => OK,
            Some(Err(BatchinfError::InferenceError(_))) => INTERNAL_SERVER_ERROR,
            Some(Err(_)) => SERVICE_UNAVAILABLE,
        }),
{
    match told {
        None => BAD_REQUEST,
        Some(Ok(_)) => OK,
        Some(Err(BatchinfError::InferenceError(_))) => INTERNAL_SERVER_ERROR,
        Some(Err(_)) => SERVICE_UNAVAILABLE,
    }
}

} // verus!
