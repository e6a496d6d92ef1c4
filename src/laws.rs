//! Properties that hold of the transforms on every input.
use crate::grid::pixel_offset;
use crate::transform::{
    clamp_quality, column_of, compress_bytes, grayscale_bytes, luma, merge_bytes, posterize,
};
use vstd::prelude::*;

verus! {

/// Every pixel of `s` has equal red, green and blue bytes.
pub open spec fn is_gray(s: Seq<u8>) -> bool {
    forall|i: int|
        0 <= i < s.len() && i % 4 != 3 ==> #[trigger] s[i] == s[4 * (i / 4)]
}

/// Grayscale keeps every alpha byte as it was.
pub proof fn lemma_grayscale_keeps_alpha(s: Seq<u8>)
    ensures
        grayscale_bytes(s).len() == s.len(),
        forall|i: int| 0 <= i < s.len() && i % 4 == 3 ==> #[trigger] grayscale_bytes(s)[i] == s[i],
{
}

/// The luma of a gray colour is its level.
pub proof fn lemma_luma_of_gray(v: u8)
    ensures
        luma(v, v, v) == v,
{
}

/// Grayscale leaves an image whose pixels are already gray exactly as it
/// was, so applying it again changes nothing.
pub proof fn lemma_grayscale_fixes_gray(s: Seq<u8>)
    requires
        s.len() % 4 == 0,
        is_gray(s),
    ensures
        grayscale_bytes(s) == s,
        grayscale_bytes(grayscale_bytes(s)) == grayscale_bytes(s),
{
    assert forall|i: int| 0 <= i < s.len() implies #[trigger] grayscale_bytes(s)[i] == s[i] by {
        let p = 4 * (i / 4);
        if i % 4 != 3 {
            assert(s[p + 1] == s[p] && s[p + 2] == s[p]);
            lemma_luma_of_gray(s[p]);
        }
    }
    assert(grayscale_bytes(s) =~= s);
}

/// Grayscale output is gray, and grayscale is idempotent on every image.
pub proof fn lemma_grayscale_idempotent(s: Seq<u8>)
    requires
        s.len() % 4 == 0,
    ensures
        is_gray(grayscale_bytes(s)),
        grayscale_bytes(grayscale_bytes(s)) == grayscale_bytes(s),
{
    let g = grayscale_bytes(s);
    assert forall|i: int| 0 <= i < g.len() && i % 4 != 3 implies #[trigger] g[i] == g[4 * (i / 4)] by {
        let p = 4 * (i / 4);
        assert(p % 4 == 0 && p / 4 == i / 4);
    }
    lemma_grayscale_fixes_gray(g);
}

/// Posterizing at full quality (one thousand thousandths) gives every
/// channel value back unchanged.
pub proof fn lemma_compress_full_quality_is_identity(s: Seq<u8>)
    ensures
        compress_bytes(s, 1000) == s,
{
    assert forall|i: int| 0 <= i < s.len() implies #[trigger] compress_bytes(s, 1000)[i] == s[i] by {
        let v = s[i] as int;
        assert((2 * v * 1000 + 1000) / 2000 == v);
        assert(v * 1000 / 1000 == v);
        assert(posterize(v, 1000) == v);
    }
    assert(compress_bytes(s, 1000) =~= s);
}

/// A quality below one tenth posterizes exactly as one tenth does.
pub proof fn lemma_compress_clamps_low_quality(s: Seq<u8>, quality_permille: int)
    requires
        quality_permille < 100,
    ensures
        compress_bytes(s, quality_permille) == compress_bytes(s, 100),
{
    assert(clamp_quality(quality_permille) == clamp_quality(100));
    assert(compress_bytes(s, quality_permille) =~= compress_bytes(s, 100));
}

/// In a merge of two `width` by `height` images, each pixel left of
/// column `width / 2` is the first image's, and every other pixel is the
/// second image's, in every row.
pub proof fn lemma_merge_columns(a: Seq<u8>, b: Seq<u8>, width: int, height: int, x: int, y: int, k: int)
    requires
        a.len() == 4 * width * height,
        b.len() == a.len(),
        0 <= x < width,
        0 <= y < height,
        0 <= k < 4,
    ensures
        merge_bytes(a, b, width)[pixel_offset(width, x, y) + k] == if x < width / 2 {
            a[pixel_offset(width, x, y) + k]
        } else {
            b[pixel_offset(width, x, y) + k]
        },
{
    let t = y * width + x;
    let i = pixel_offset(width, x, y) + k;
    crate::rgba::lemma_offset_in_bounds(width, height, x, y);
    assert(i / 4 == t);
    vstd::arithmetic::div_mod::lemma_fundamental_div_mod_converse_mod(t, width, y, x);
    assert(column_of(i, width) == x);
}

} // verus!
