//! Pixel storage backed by `image::ImageBuffer`, seen by the proofs only
//! through the bytes it holds and the dimensions it was made with.
use image::{ImageBuffer, Rgba};
use vstd::prelude::*;

verus! {

/// An RGBA image buffer of the `image` crate, eight bits per channel.
#[verifier::external_body]
pub struct PixelGrid {
    buf: ImageBuffer<Rgba<u8>, Vec<u8>>,
}

/// The bytes that a grid holds: four per pixel, row by row.
pub uninterp spec fn grid_bytes(g: PixelGrid) -> Seq<u8>;

/// The width and height that a grid was made with.
pub uninterp spec fn grid_dims(g: PixelGrid) -> (u32, u32);

/// Index of the first byte of pixel `(x, y)` in a row-major RGBA buffer of
/// the given width.
pub open spec fn pixel_offset(width: int, x: int, y: int) -> int {
    4 * (y * width + x)
}

/// Relies on `ImageBuffer::from_raw`: it keeps the buffer as it is and
/// succeeds exactly when `4 * width` fits in `usize` (checked first) and
/// `4 * width * height` bytes fit in the buffer.
#[verifier::external_body]
pub(crate) fn grid_from_raw(width: u32, height: u32, buf: Vec<u8>) -> (r: Option<PixelGrid>)
    ensures
        r.is_some() <==> (4 * width <= usize::MAX && 4 * width * height <= buf@.len()),
        r matches Some(g) ==> grid_bytes(g) == buf@ && grid_dims(g) == (width, height),
{
    match ImageBuffer::from_raw(width, height, buf) {
        Some(buf) => Some(PixelGrid { buf }),
        None => None,
    }
}

/// Relies on `ImageBuffer::new`: `4 * width * height` zero bytes; it panics
/// only when `4 * width`, or that length, overflows `usize`.
#[verifier::external_body]
pub(crate) fn grid_new(width: u32, height: u32) -> (r: PixelGrid)
    requires
        4 * width <= usize::MAX,
        4 * width * height <= usize::MAX,
    ensures
        grid_bytes(r) == Seq::new((4 * width * height) as nat, |i: int| 0u8),
        grid_dims(r) == (width, height),
{
    PixelGrid { buf: ImageBuffer::new(width, height) }
}

/// Relies on `ImageBuffer::get_pixel`: the four bytes at the pixel's offset;
/// it panics only outside the dimensions or past the end of the bytes.
#[verifier::external_body]
pub(crate) fn grid_get(g: &PixelGrid, x: u32, y: u32) -> (r: [u8; 4])
    requires
        x < grid_dims(*g).0,
        y < grid_dims(*g).1,
        pixel_offset(grid_dims(*g).0 as int, x as int, y as int) + 4 <= grid_bytes(*g).len(),
    ensures
        r@ == grid_bytes(*g).subrange(
            pixel_offset(grid_dims(*g).0 as int, x as int, y as int),
            pixel_offset(grid_dims(*g).0 as int, x as int, y as int) + 4,
        ),
{
    g.buf.get_pixel(x, y).0
}

/// Relies on `ImageBuffer::put_pixel`: it overwrites the four bytes at the
/// pixel's offset and nothing else; it panics only where `get_pixel` does.
#[verifier::external_body]
pub(crate) fn grid_put(g: &mut PixelGrid, x: u32, y: u32, p: [u8; 4])
    requires
        x < grid_dims(*old(g)).0,
        y < grid_dims(*old(g)).1,
        pixel_offset(grid_dims(*old(g)).0 as int, x as int, y as int) + 4 <= grid_bytes(
            *old(g),
        ).len(),
    ensures
        grid_dims(*final(g)) == grid_dims(*old(g)),
        grid_bytes(*final(g)).len() == grid_bytes(*old(g)).len(),
        forall|i: int|
            0 <= i < grid_bytes(*old(g)).len() ==> #[trigger] grid_bytes(*final(g))[i] == {
                let o = pixel_offset(grid_dims(*old(g)).0 as int, x as int, y as int);
                if o <= i < o + 4 {
                    p[i - o]
                } else {
                    grid_bytes(*old(g))[i]
                }
            },
{
    g.buf.put_pixel(x, y, Rgba(p))
}

/// Relies on `ImageBuffer::into_raw`: it hands back the bytes it holds.
#[verifier::external_body]
pub(crate) fn grid_into_bytes(g: PixelGrid) -> (r: Vec<u8>)
    ensures
        r@ == grid_bytes(g),
{
    g.buf.into_raw()
}

} // verus!
