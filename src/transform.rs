//! The per-pixel transforms: grayscale, posterization and the half merge.
use crate::grid::pixel_offset;
use crate::rgba::{buffer_len, lemma_offset_in_bounds, ErrorKind, RgbaImage};
use vstd::prelude::*;

verus! {

/// Perceptual luma of a colour, `0.299 r + 0.587 g + 0.114 b`, truncated
/// toward zero. The weights are taken in thousandths, so the value is exact.
pub open spec fn luma(r: u8, g: u8, b: u8) -> u8 {
    ((299 * r + 587 * g + 114 * b) / 1000) as u8
}

/// Grayscale of an RGBA byte sequence: each colour byte becomes the luma of
/// its pixel; each alpha byte stays.
pub open spec fn grayscale_bytes(s: Seq<u8>) -> Seq<u8> {
    Seq::new(
        s.len(),
        |i: int|
            {
                let p = 4 * (i / 4);
                if i % 4 == 3 {
                    s[i]
                } else {
                    luma(s[p], s[p + 1], s[p + 2])
                }
            },
    )
}

/// The quality actually used: at least one tenth, given in thousandths.
pub open spec fn clamp_quality(quality_permille: int) -> int {
    if quality_permille < 100 {
        100
    } else {
        quality_permille
    }
}

/// One channel value posterized at `factor` thousandths: `v * factor`
/// rounded half up to a level, the level divided back by `factor` and
/// truncated, and the result capped at 255.
pub open spec fn posterize(v: int, factor: int) -> int {
    let level = (2 * v * factor + 1000) / 2000;
    let back = level * 1000 / factor;
    if back > 255 {
        255
    } else {
        back
    }
}

/// Posterization of an RGBA byte sequence: each colour byte is posterized
/// at the clamped quality; each alpha byte stays.
pub open spec fn compress_bytes(s: Seq<u8>, quality_permille: int) -> Seq<u8> {
    Seq::new(
        s.len(),
        |i: int|
            if i % 4 == 3 {
                s[i]
            } else {
                posterize(s[i] as int, clamp_quality(quality_permille)) as u8
            },
    )
}

/// The column of byte `i` in a row-major RGBA buffer of the given width.
pub open spec fn column_of(i: int, width: int) -> int {
    (i / 4) % width
}

/// The left `width / 2` columns of `a` beside the remaining columns of `b`.
pub open spec fn merge_bytes(a: Seq<u8>, b: Seq<u8>, width: int) -> Seq<u8> {
    Seq::new(
        a.len(),
        |i: int|
            if column_of(i, width) < width / 2 {
                a[i]
            } else {
                b[i]
            },
    )
}

proof fn lemma_quarter(t: int, k: int)
    requires
        0 <= k < 4,
    ensures
        (4 * t + k) / 4 == t,
        (4 * t + k) % 4 == k,
{
}

proof fn lemma_next_row(w: int, y: int)
    ensures
        pixel_offset(w, w, y) == pixel_offset(w, 0, y + 1),
{
    assert(y * w + w == (y + 1) * w) by (nonlinear_arith);
}

proof fn lemma_last_row(w: int, h: int)
    ensures
        pixel_offset(w, 0, h) == buffer_len(w, h),
{
    assert(4 * (h * w) == 4 * w * h) by (nonlinear_arith);
}

fn luma_of(r: u8, g: u8, b: u8) -> (res: u8)
    ensures
        res == luma(r, g, b),
{
    ((299 * r as u32 + 587 * g as u32 + 114 * b as u32) / 1000) as u8
}

/// The grayscale of `image`: each pixel `(r, g, b, a)` becomes
/// `(l, l, l, a)` with `l` its luma.
pub fn grayscale(image: &RgbaImage) -> (r: RgbaImage)
    requires
        image.wf(),
    ensures
        r.wf(),
        r@.width == image@.width,
        r@.height == image@.height,
        r@.bytes == grayscale_bytes(image@.bytes),
{
    let w = image.width();
    let h = image.height();
    let mut out = RgbaImage::new_blank(w, h);
    let ghost src = image@.bytes;
    let mut y: u32 = 0;
    while y < h
        invariant
            image.wf(),
            out.wf(),
            src == image@.bytes,
            w == image@.width,
            h == image@.height,
            out@.width == w,
            out@.height == h,
            out@.bytes.len() == src.len(),
            0 <= y <= h,
            forall|i: int|
                0 <= i < pixel_offset(w as int, 0, y as int) ==> #[trigger] out@.bytes[i]
                    == grayscale_bytes(src)[i],
        decreases h - y,
    {
        let mut x: u32 = 0;
        while x < w
            invariant
                image.wf(),
                out.wf(),
                src == image@.bytes,
                w == image@.width,
                h == image@.height,
                out@.width == w,
                out@.height == h,
                out@.bytes.len() == src.len(),
                0 <= y < h,
                0 <= x <= w,
                forall|i: int|
                    0 <= i < pixel_offset(w as int, x as int, y as int) ==> #[trigger] out@.bytes[i]
                        == grayscale_bytes(src)[i],
            decreases w - x,
        {
            let p = image.get(x, y);
            let l = luma_of(p[0], p[1], p[2]);
            let ghost o = pixel_offset(w as int, x as int, y as int);
            let ghost t = y as int * w as int + x as int;
            proof {
                lemma_offset_in_bounds(w as int, h as int, x as int, y as int);
            }
            out.set(x, y, [l, l, l, p[3]]);
            proof {
                assert forall|i: int|
                    0 <= i < pixel_offset(w as int, x + 1, y as int) implies #[trigger] out@.bytes[i]
                    == grayscale_bytes(src)[i] by {
                    if o <= i {
                        lemma_quarter(t, i - o);
                        assert(p[0] == src[o] && p[1] == src[o + 1] && p[2] == src[o + 2]);
                        assert(p[3] == src[o + 3]);
                    }
                }
            }
            x = x + 1;
        }
        proof {
            lemma_next_row(w as int, y as int);
        }
        y = y + 1;
    }
    proof {
        lemma_last_row(w as int, h as int);
        assert(out@.bytes =~= grayscale_bytes(src));
    }
    out
}

fn posterize_channel(v: u8, factor: u64) -> (r: u8)
    requires
        100 <= factor <= u32::MAX,
    ensures
        r == posterize(v as int, factor as int),
{
    assert(2 * v * factor <= 2 * 255 * 0xffff_ffff) by (nonlinear_arith)
        requires
            v <= 255,
            factor <= 0xffff_ffffu64,
    ;
    let level = (2 * (v as u64) * factor + 1000) / 2000;
    let back = level * 1000 / factor;
    if back > 255 {
        255
    } else {
        back as u8
    }
}

/// The posterization of `image` at `quality_permille` thousandths, raised
/// to one tenth where it is lower: each colour channel `v` becomes
/// `round(v * q) / q` truncated (and capped at 255); alpha stays.
pub fn compress(image: &RgbaImage, quality_permille: u32) -> (r: RgbaImage)
    requires
        image.wf(),
    ensures
        r.wf(),
        r@.width == image@.width,
        r@.height == image@.height,
        r@.bytes == compress_bytes(image@.bytes, quality_permille as int),
{
    let factor: u64 = if quality_permille < 100 {
        100
    } else {
        quality_permille as u64
    };
    let w = image.width();
    let h = image.height();
    let mut out = RgbaImage::new_blank(w, h);
    let ghost src = image@.bytes;
    let mut y: u32 = 0;
    while y < h
        invariant
            image.wf(),
            out.wf(),
            src == image@.bytes,
            factor == clamp_quality(quality_permille as int),
            w == image@.width,
            h == image@.height,
            out@.width == w,
            out@.height == h,
            out@.bytes.len() == src.len(),
            0 <= y <= h,
            forall|i: int|
                0 <= i < pixel_offset(w as int, 0, y as int) ==> #[trigger] out@.bytes[i]
                    == compress_bytes(src, quality_permille as int)[i],
        decreases h - y,
    {
        let mut x: u32 = 0;
        while x < w
            invariant
                image.wf(),
                out.wf(),
                src == image@.bytes,
                factor == clamp_quality(quality_permille as int),
                w == image@.width,
                h == image@.height,
                out@.width == w,
                out@.height == h,
                out@.bytes.len() == src.len(),
                0 <= y < h,
                0 <= x <= w,
                forall|i: int|
                    0 <= i < pixel_offset(w as int, x as int, y as int) ==> #[trigger] out@.bytes[i]
                        == compress_bytes(src, quality_permille as int)[i],
            decreases w - x,
        {
            let p = image.get(x, y);
            let q = [
                posterize_channel(p[0], factor),
                posterize_channel(p[1], factor),
                posterize_channel(p[2], factor),
                p[3],
            ];
            let ghost o = pixel_offset(w as int, x as int, y as int);
            let ghost t = y as int * w as int + x as int;
            proof {
                lemma_offset_in_bounds(w as int, h as int, x as int, y as int);
            }
            out.set(x, y, q);
            proof {
                assert forall|i: int|
                    0 <= i < pixel_offset(w as int, x + 1, y as int) implies #[trigger] out@.bytes[i]
                    == compress_bytes(src, quality_permille as int)[i] by {
                    if o <= i {
                        lemma_quarter(t, i - o);
                        assert(p[0] == src[o] && p[1] == src[o + 1] && p[2] == src[o + 2]);
                        assert(p[3] == src[o + 3]);
                    }
                }
            }
            x = x + 1;
        }
        proof {
            lemma_next_row(w as int, y as int);
        }
        y = y + 1;
    }
    proof {
        lemma_last_row(w as int, h as int);
        assert(out@.bytes =~= compress_bytes(src, quality_permille as int));
    }
    out
}

/// `image1` and `image2` cut at column `width / 2`: the pixels left of the
/// cut come from `image1`, the others from `image2`. Images that differ in
/// width or height give `DimensionMismatch`.
pub fn merge_half(image1: &RgbaImage, image2: &RgbaImage) -> (r: Result<RgbaImage, ErrorKind>)
    requires
        image1.wf(),
        image2.wf(),
    ensures
        r.is_ok() <==> image1@.width == image2@.width && image1@.height == image2@.height,
        r matches Ok(m) ==> {
            &&& m.wf()
            &&& m@.width == image1@.width
            &&& m@.height == image1@.height
            &&& m@.bytes == merge_bytes(image1@.bytes, image2@.bytes, image1@.width as int)
        },
        r matches Err(e) ==> e == ErrorKind::DimensionMismatch,
{
    let w = image1.width();
    let h = image1.height();
    if w != image2.width() || h != image2.height() {
        return Err(ErrorKind::DimensionMismatch);
    }
    let split_x = w / 2;
    let mut out = RgbaImage::new_blank(w, h);
    let ghost a = image1@.bytes;
    let ghost b = image2@.bytes;
    let mut y: u32 = 0;
    while y < h
        invariant
            image1.wf(),
            image2.wf(),
            out.wf(),
            a == image1@.bytes,
            b == image2@.bytes,
            w == image1@.width,
            h == image1@.height,
            w == image2@.width,
            h == image2@.height,
            split_x == w / 2,
            out@.width == w,
            out@.height == h,
            out@.bytes.len() == a.len(),
            0 <= y <= h,
            forall|i: int|
                0 <= i < pixel_offset(w as int, 0, y as int) ==> #[trigger] out@.bytes[i]
                    == merge_bytes(a, b, w as int)[i],
        decreases h - y,
    {
        let mut x: u32 = 0;
        while x < w
            invariant
                image1.wf(),
                image2.wf(),
                out.wf(),
                a == image1@.bytes,
                b == image2@.bytes,
                w == image1@.width,
                h == image1@.height,
                w == image2@.width,
                h == image2@.height,
                split_x == w / 2,
                out@.width == w,
                out@.height == h,
                out@.bytes.len() == a.len(),
                0 <= y < h,
                0 <= x <= w,
                forall|i: int|
                    0 <= i < pixel_offset(w as int, x as int, y as int) ==> #[trigger] out@.bytes[i]
                        == merge_bytes(a, b, w as int)[i],
            decreases w - x,
        {
            let p = if x < split_x {
                image1.get(x, y)
            } else {
                image2.get(x, y)
            };
            let ghost o = pixel_offset(w as int, x as int, y as int);
            let ghost t = y as int * w as int + x as int;
            proof {
                lemma_offset_in_bounds(w as int, h as int, x as int, y as int);
                vstd::arithmetic::div_mod::lemma_fundamental_div_mod_converse_mod(
                    t,
                    w as int,
                    y as int,
                    x as int,
                );
            }
            out.set(x, y, p);
            proof {
                assert forall|i: int|
                    0 <= i < pixel_offset(w as int, x + 1, y as int) implies #[trigger] out@.bytes[i]
                    == merge_bytes(a, b, w as int)[i] by {
                    if o <= i {
                        lemma_quarter(t, i - o);
                        assert(column_of(i, w as int) == x);
                        if x < split_x {
                            assert(p@[i - o] == a[i]);
                        } else {
                            assert(p@[i - o] == b[i]);
                        }
                    }
                }
            }
            x = x + 1;
        }
        proof {
            lemma_next_row(w as int, y as int);
        }
        y = y + 1;
    }
    proof {
        lemma_last_row(w as int, h as int);
        assert(out@.bytes =~= merge_bytes(a, b, w as int));
    }
    Ok(out)
}

} // verus!
