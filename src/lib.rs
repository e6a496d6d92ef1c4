//! Pixel transforms over flat RGBA buffers: grayscale, posterization and a
//! merge of two images cut at half their width.
mod grid;
pub mod laws;
pub mod rgba;
pub mod transform;

pub use grid::pixel_offset;
pub use rgba::{buffer_len, row_fits, valid_buffer, ErrorKind, ImageView, RgbaImage};
pub use transform::{
    clamp_quality, column_of, compress, compress_bytes, grayscale, grayscale_bytes, luma,
    merge_bytes, merge_half, posterize,
};

use vstd::prelude::*;

verus! {

/// The grayscale of a `width` by `height` RGBA buffer, or
/// `BufferSizeMismatch` where its length is not `width * height * 4` (or a
/// row of `width` pixels overflows `usize`).
pub fn apply_grayscale(width: u32, height: u32, image_data: Vec<u8>) -> (r: Result<
    Vec<u8>,
    ErrorKind,
>)
    ensures
        r.is_ok() <==> valid_buffer(width as int, height as int, image_data@.len() as int),
        r matches Ok(out) ==> out@ == grayscale_bytes(image_data@),
        r matches Err(e) ==> e == ErrorKind::BufferSizeMismatch,
{
    match RgbaImage::from_raw(width, height, image_data) {
        Ok(image) => Ok(grayscale(&image).flatten()),
        Err(e) => Err(e),
    }
}

/// The posterization of a `width` by `height` RGBA buffer at
/// `quality_permille` thousandths (raised to one tenth where lower), or
/// `BufferSizeMismatch` where its length is not `width * height * 4` (or a
/// row of `width` pixels overflows `usize`).
pub fn compress_image(width: u32, height: u32, image_data: Vec<u8>, quality_permille: u32) -> (r:
    Result<Vec<u8>, ErrorKind>)
    ensures
        r.is_ok() <==> valid_buffer(width as int, height as int, image_data@.len() as int),
        r matches Ok(out) ==> out@ == compress_bytes(image_data@, quality_permille as int),
        r matches Err(e) ==> e == ErrorKind::BufferSizeMismatch,
{
    match RgbaImage::from_raw(width, height, image_data) {
        Ok(image) => Ok(compress(&image, quality_permille).flatten()),
        Err(e) => Err(e),
    }
}

/// Two `width` by `height` RGBA buffers cut at column `width / 2`: the left
/// part from the first, the rest from the second. The first buffer is
/// checked against the declared size (`BufferSizeMismatch`); a second buffer
/// whose length differs from it is an image of other dimensions
/// (`DimensionMismatch`).
pub fn merge_half_images(width: u32, height: u32, image1_data: Vec<u8>, image2_data: Vec<u8>) -> (r:
    Result<Vec<u8>, ErrorKind>)
    ensures
        r.is_ok() <==> valid_buffer(width as int, height as int, image1_data@.len() as int)
            && image2_data@.len() == image1_data@.len(),
        r matches Ok(out) ==> out@ == merge_bytes(image1_data@, image2_data@, width as int),
        r == Err::<Vec<u8>, ErrorKind>(ErrorKind::BufferSizeMismatch) <==> !valid_buffer(
            width as int,
            height as int,
            image1_data@.len() as int,
        ),
        r == Err::<Vec<u8>, ErrorKind>(ErrorKind::DimensionMismatch) <==> valid_buffer(
            width as int,
            height as int,
            image1_data@.len() as int,
        ) && image2_data@.len() != image1_data@.len(),
{
    let image1 = match RgbaImage::from_raw(width, height, image1_data) {
        Ok(image) => image,
        Err(e) => return Err(e),
    };
    let image2 = match RgbaImage::from_raw(width, height, image2_data) {
        Ok(image) => image,
        Err(_) => return Err(ErrorKind::DimensionMismatch),
    };
    match merge_half(&image1, &image2) {
        Ok(merged) => Ok(merged.flatten()),
        Err(e) => Err(e),
    }
}

} // verus!
