//! The RGBA image that every transform consumes and produces.
use crate::grid::{
    grid_bytes, grid_dims, grid_from_raw, grid_get, grid_into_bytes, grid_new, grid_put,
    pixel_offset, PixelGrid,
};
use vstd::prelude::*;

verus! {

/// Why an operation gave no image.
#[derive(Debug, Clone, Copy, PartialEq, Eq, Structural)]
pub enum ErrorKind {
    /// The buffer does not hold exactly `width * height * 4` bytes.
    BufferSizeMismatch,
    /// The two images given to a merge differ in width or height.
    DimensionMismatch,
}

impl ErrorKind {
    /// A short sentence that names the error.
    pub fn message(&self) -> (r: String)
        ensures
            r@ == (match self {
                ErrorKind::BufferSizeMismatch => "buffer length does not match width * height * 4"@,
                ErrorKind::DimensionMismatch => "images differ in width or height"@,
            }),
    {
        match self {
            ErrorKind::BufferSizeMismatch => String::from_str(
                "buffer length does not match width * height * 4",
            ),
            ErrorKind::DimensionMismatch => String::from_str("images differ in width or height"),
        }
    }
}

/// What an image is: its dimensions and its bytes, four per pixel
/// (red, green, blue, alpha), row by row.
pub struct ImageView {
    pub width: nat,
    pub height: nat,
    pub bytes: Seq<u8>,
}

/// The number of bytes of a `width` by `height` RGBA image.
pub open spec fn buffer_len(width: int, height: int) -> int {
    4 * width * height
}

/// The bytes of one row can be indexed on this machine. The pixel storage
/// checks this before anything else, whatever the height.
pub open spec fn row_fits(width: int) -> bool {
    4 * width <= usize::MAX
}

/// A buffer of `len` bytes holds a `width` by `height` RGBA image that this
/// machine can address.
pub open spec fn valid_buffer(width: int, height: int, len: int) -> bool {
    row_fits(width) && len == buffer_len(width, height)
}

/// A `width` by `height` RGBA image.
pub struct RgbaImage {
    width: u32,
    height: u32,
    grid: PixelGrid,
}

impl View for RgbaImage {
    type V = ImageView;

    closed spec fn view(&self) -> ImageView {
        ImageView {
            width: self.width as nat,
            height: self.height as nat,
            bytes: grid_bytes(self.grid),
        }
    }
}

pub(crate) proof fn lemma_offset_in_bounds(w: int, h: int, x: int, y: int)
    requires
        0 <= x < w,
        0 <= y < h,
    ensures
        0 <= pixel_offset(w, x, y),
        pixel_offset(w, x, y) + 4 <= buffer_len(w, h),
{
    assert(0 <= y * w) by (nonlinear_arith)
        requires
            0 <= y,
            0 <= w,
    ;
    assert(y * w <= (h - 1) * w) by (nonlinear_arith)
        requires
            0 <= y < h,
            0 <= w,
    ;
    assert((h - 1) * w == h * w - w) by (nonlinear_arith);
    assert(4 * w * h == 4 * (w * h)) by (nonlinear_arith);
    assert(h * w == w * h) by (nonlinear_arith);
}

impl RgbaImage {
    /// The storage agrees with the dimensions.
    pub closed spec fn storage_ok(&self) -> bool {
        grid_dims(self.grid) == (self.width, self.height)
    }

    /// Well-formed: exactly `width * height * 4` bytes.
    pub open spec fn wf(&self) -> bool {
        &&& self.storage_ok()
        &&& self@.bytes.len() == buffer_len(self@.width as int, self@.height as int)
        &&& self@.bytes.len() <= usize::MAX
        &&& row_fits(self@.width as int)
        &&& self@.width <= u32::MAX
        &&& self@.height <= u32::MAX
    }

    /// Takes `buffer` as a `width` by `height` image; refuses a buffer of any
    /// other length than `width * height * 4`, and a width whose row of
    /// bytes overflows `usize`.
    pub fn from_raw(width: u32, height: u32, buffer: Vec<u8>) -> (r: Result<RgbaImage, ErrorKind>)
        ensures
            valid_buffer(width as int, height as int, buffer@.len() as int) <==> r.is_ok(),
            r matches Ok(img) ==> img.wf() && img@ == (ImageView {
                width: width as nat,
                height: height as nat,
                bytes: buffer@,
            }),
            r matches Err(e) ==> e == ErrorKind::BufferSizeMismatch,
    {
        let row = (width as usize).checked_mul(4);
        let expected = match row {
            Some(row) => row.checked_mul(height as usize),
            None => None,
        };
        proof {
            assert(4 * width * height == (width * 4) * height) by (nonlinear_arith);
        }
        let blen = buffer.len();
        let fits = match expected {
            Some(len) => len == blen,
            None => false,
        };
        if !fits {
            return Err(ErrorKind::BufferSizeMismatch);
        }
        match grid_from_raw(width, height, buffer) {
            Some(grid) => Ok(RgbaImage { width, height, grid }),
            None => Err(ErrorKind::BufferSizeMismatch),
        }
    }

    /// A `width` by `height` image of transparent black: every byte zero.
    pub fn new_blank(width: u32, height: u32) -> (r: RgbaImage)
        requires
            row_fits(width as int),
            buffer_len(width as int, height as int) <= usize::MAX,
        ensures
            r.wf(),
            r@ == (ImageView {
                width: width as nat,
                height: height as nat,
                bytes: Seq::new(buffer_len(width as int, height as int) as nat, |i: int| 0u8),
            }),
    {
        RgbaImage { width, height, grid: grid_new(width, height) }
    }

    /// The number of pixels in a row.
    pub fn width(&self) -> (r: u32)
        ensures
            r == self@.width,
    {
        self.width
    }

    /// The number of rows.
    pub fn height(&self) -> (r: u32)
        ensures
            r == self@.height,
    {
        self.height
    }

    /// The pixel at column `x` of row `y`, as red, green, blue, alpha.
    pub fn get(&self, x: u32, y: u32) -> (r: [u8; 4])
        requires
            self.wf(),
            x < self@.width,
            y < self@.height,
        ensures
            r@ == self@.bytes.subrange(
                pixel_offset(self@.width as int, x as int, y as int),
                pixel_offset(self@.width as int, x as int, y as int) + 4,
            ),
    {
        proof {
            lemma_offset_in_bounds(self.width as int, self.height as int, x as int, y as int);
        }
        grid_get(&self.grid, x, y)
    }

    /// Writes `p` as the pixel at column `x` of row `y`; every other byte
    /// stays as it was.
    pub fn set(&mut self, x: u32, y: u32, p: [u8; 4])
        requires
            old(self).wf(),
            x < old(self)@.width,
            y < old(self)@.height,
        ensures
            final(self).wf(),
            final(self)@.width == old(self)@.width,
            final(self)@.height == old(self)@.height,
            final(self)@.bytes.len() == old(self)@.bytes.len(),
            forall|i: int|
                0 <= i < old(self)@.bytes.len() ==> #[trigger] final(self)@.bytes[i] == {
                    let o = pixel_offset(old(self)@.width as int, x as int, y as int);
                    if o <= i < o + 4 {
                        p[i - o]
                    } else {
                        old(self)@.bytes[i]
                    }
                },
    {
        proof {
            lemma_offset_in_bounds(self.width as int, self.height as int, x as int, y as int);
        }
        grid_put(&mut self.grid, x, y, p);
    }

    /// The bytes of the image, row by row.
    pub fn flatten(self) -> (r: Vec<u8>)
        ensures
            r@ == self@.bytes,
    {
        grid_into_bytes(self.grid)
    }
}

} // verus!
