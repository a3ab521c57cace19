//! Layout and statuses of the embedding service.
use batchinf::embedding::{
    channel_planes, decoded_planes, embed_status, flatten_batch, load_from_memory, resized_rgb,
    IMAGE_SIZE,
};
use batchinf::BatchinfError;
use image::{DynamicImage, ImageFormat, Rgb, RgbImage};
use std::io::Cursor;

/// The bytes of an image file of one color.
fn one_color(width: u32, height: u32, color: [u8; 3]) -> Vec<u8> {
    let img = DynamicImage::ImageRgb8(RgbImage::from_pixel(width, height, Rgb(color)));
    let mut file = Cursor::new(Vec::new());
    img.write_to(&mut file, ImageFormat::Png).unwrap();
    file.into_inner()
}

#[test]
fn inputs_are_laid_side_by_side() {
    assert_eq!(flatten_batch(&[vec![1.5f32, 2.5], vec![], vec![3.5]]), vec![1.5, 2.5, 3.5]);
    assert!(flatten_batch::<u8>(&[]).is_empty());
}

#[test]
fn channels_are_separated() {
    assert_eq!(channel_planes(&[1, 2, 3, 4, 5, 6]), vec![1, 4, 2, 5, 3, 6]);
    assert!(channel_planes(&[]).is_empty());
}

#[test]
fn an_image_is_decoded_and_laid_out_by_channel() {
    let planes = decoded_planes(&one_color(10, 20, [200, 100, 50])).unwrap();
    let plane_len = IMAGE_SIZE * IMAGE_SIZE;
    assert_eq!(planes.len(), 3 * plane_len);
    assert!(planes[..plane_len].iter().all(|value| *value == 200));
    assert!(planes[plane_len..2 * plane_len].iter().all(|value| *value == 100));
    assert!(planes[2 * plane_len..].iter().all(|value| *value == 50));
}

#[test]
fn an_image_of_the_right_size_keeps_its_pixels() {
    let side = IMAGE_SIZE as u32;
    let img = RgbImage::from_fn(side, side, |x, y| Rgb([x as u8, y as u8, 7]));
    let mut file = Cursor::new(Vec::new());
    DynamicImage::ImageRgb8(img).write_to(&mut file, ImageFormat::Png).unwrap();
    let planes = decoded_planes(&file.into_inner()).unwrap();
    let plane_len = IMAGE_SIZE * IMAGE_SIZE;
    assert_eq!(planes[IMAGE_SIZE + 5], 5);
    assert_eq!(planes[plane_len + IMAGE_SIZE * 9 + 5], 9);
    assert_eq!(planes[3 * plane_len - 1], 7);
}

#[test]
fn bytes_that_are_no_image_are_not_decoded() {
    assert!(decoded_planes(&[]).is_none());
    assert!(decoded_planes(b"not an image").is_none());
    let file = one_color(10, 20, [1, 2, 3]);
    assert!(decoded_planes(&file[..file.len() / 2]).is_none());
    assert!(load_from_memory(b"GIF?").is_none());
}

#[test]
fn a_resized_image_is_a_square() {
    let img = load_from_memory(&one_color(3, 2, [9, 8, 7])).unwrap();
    assert_eq!(resized_rgb(&img, 2), [9, 8, 7].repeat(4));
    assert_eq!(resized_rgb(&DynamicImage::new_luma8(0, 0), 5), vec![0; 75]);
}

#[test]
fn statuses_of_a_request() {
    assert_eq!(embed_status::<u8, u8>(&None), 400);
    assert_eq!(embed_status::<u8, u8>(&Some(Ok(1))), 200);
    assert_eq!(embed_status::<u8, u8>(&Some(Err(BatchinfError::InferenceError(1)))), 500);
    for error in [
        BatchinfError::InternalError,
        BatchinfError::TimeoutError,
        BatchinfError::NoAvailableWorkersError,
        BatchinfError::QueueFullError,
        BatchinfError::InvalidPredictorOutput,
    ] {
        assert_eq!(embed_status::<u8, u8>(&Some(Err(error))), 503);
    }
}
