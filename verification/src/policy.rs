//! The two pure decisions of the pipeline: how a raster is downscaled to the
//! configured bound, and whether a recompressed file is worth writing at all.

use vstd::prelude::*;

use vstd::arithmetic::div_mod::{lemma_fundamental_div_mod, lemma_multiply_divide_lt};
use vstd::arithmetic::mul::{lemma_mul_inequality, lemma_mul_upper_bound};

use crate::paths::{spec_destination, spec_is_jpg};

verus! {

/// The scaled length of the shorter side when the longer side is brought
/// down to `max`: `short * max / long`, rounded to the nearest pixel and
/// clamped to at least one pixel.
pub open spec fn spec_scaled(short: u32, long: u32, max: u32) -> int {
    let q = (short * max + long / 2) / (long as int);
    if q < 1 {
        1
    } else {
        q
    }
}

/// Dimensions after the conditional downscale: a raster whose sides both lie
/// within `max` keeps its dimensions; an oversized one is scaled down so its
/// longer side equals `max` and the shorter side keeps the aspect ratio
/// within one pixel. A degenerate raster (a zero side) is left alone.
pub open spec fn spec_fit(w: u32, h: u32, max: u32) -> (u32, u32) {
    if w == 0 || h == 0 || (w <= max && h <= max) {
        (w, h)
    } else if h <= w {
        (max, spec_scaled(h, w, max) as u32)
    } else {
        (spec_scaled(w, h, max) as u32, max)
    }
}

/// Whether the recompressed bytes are written in place of the original:
/// always for a source that is not already a `jpg`, and for a `jpg` only
/// when the recompressed size is strictly under nine tenths of the original
/// size. An unreadable original size means rewrite.
pub open spec fn spec_should_rewrite(
    ext_is_jpg: bool,
    compressed_len: u64,
    original_len: Option<u64>,
) -> bool {
    if !ext_is_jpg {
        true
    } else {
        match original_len {
            None => true,
            Some(s) => compressed_len < s * 9 / 10,
        }
    }
}

/// The rounded scaled side stays within every relevant bound and preserves
/// the aspect ratio within one pixel.
pub proof fn lemma_scaled_bounds(short: u32, long: u32, max: u32)
    requires
        1 <= short,
        short <= long,
        1 <= max,
        max < long,
    ensures
        ({
            let q = spec_scaled(short, long, max);
            &&& 1 <= q
            &&& q <= short
            &&& q <= max
            &&& q * long <= short * max + long
            &&& short * max <= q * long + long
        }),
{
    let s = short as int;
    let l = long as int;
    let m = max as int;
    let a = s * m + l / 2;
    let q0 = a / l;
    lemma_fundamental_div_mod(a, l);
    assert(0 <= a % l < l) by {
        lemma_mul_inequality(0, s, m);
    }
    // q0 <= short: a < (short + 1) * long
    assert(s * m <= s * (l - 1)) by {
        lemma_mul_inequality(m, l - 1, s);
        assert(m * s == s * m) by {
            vstd::arithmetic::mul::lemma_mul_is_commutative(m, s);
        }
        assert((l - 1) * s == s * (l - 1)) by {
            vstd::arithmetic::mul::lemma_mul_is_commutative(l - 1, s);
        }
    }
    assert(s * (l - 1) == s * l - s) by {
        vstd::arithmetic::mul::lemma_mul_is_distributive_sub(s, l, 1);
    }
    assert(a < (s + 1) * l) by {
        assert((s + 1) * l == s * l + l) by {
            vstd::arithmetic::mul::lemma_mul_is_distributive_add_other_way(l, s, 1);
        }
    }
    assert(q0 < s + 1) by {
        lemma_multiply_divide_lt(a, l, s + 1);
    }
    // q0 <= max: a < (max + 1) * long
    assert(s * m <= l * m) by {
        lemma_mul_inequality(s, l, m);
    }
    assert(a < (m + 1) * l) by {
        assert((m + 1) * l == m * l + l) by {
            vstd::arithmetic::mul::lemma_mul_is_distributive_add_other_way(l, m, 1);
        }
        assert(l * m == m * l) by {
            vstd::arithmetic::mul::lemma_mul_is_commutative(l, m);
        }
    }
    assert(q0 < m + 1) by {
        lemma_multiply_divide_lt(a, l, m + 1);
    }
    // q0 * long is within l of short * max
    assert(l * q0 == a - a % l);
    assert(q0 * l == l * q0) by {
        vstd::arithmetic::mul::lemma_mul_is_commutative(q0, l);
    }
    assert(q0 * l <= s * m + l);
    assert(q0 >= 0) by {
        vstd::arithmetic::div_mod::lemma_div_pos_is_pos(a, l);
    }
    if q0 < 1 {
        // the rounded value vanished: short * max is under the separator
        assert(l * q0 == 0) by {
            vstd::arithmetic::mul::lemma_mul_basics(l);
        }
        assert(s * m < l);
        assert(spec_scaled(short, long, max) == 1);
        assert(1 * l == l) by {
            vstd::arithmetic::mul::lemma_mul_basics(l);
        }
    } else {
        assert(s * m <= q0 * l + l);
    }
}

/// Downscale dimensions: the longer side comes down to `max_dimension`, the
/// shorter follows proportionally, rounded to the nearest pixel.
fn scaled_side(short: u32, long: u32, max_dimension: u32) -> (r: u32)
    requires
        1 <= short,
        short <= long,
        1 <= max_dimension,
        max_dimension < long,
    ensures
        r as int == spec_scaled(short, long, max_dimension),
{
    proof {
        lemma_scaled_bounds(short, long, max_dimension);
        lemma_mul_upper_bound(short as int, u32::MAX as int, max_dimension as int, u32::MAX as int);
    }
    let a: u64 = (short as u64) * (max_dimension as u64) + (long as u64) / 2;
    let q: u64 = a / (long as u64);
    if q < 1 {
        1
    } else {
        q as u32
    }
}

/// Dimensions after the conditional downscale (the decision of what size the
/// compressed raster will have).
pub fn fit_dimensions(width: u32, height: u32, max_dimension: u32) -> (r: (u32, u32))
    requires
        1 <= max_dimension,
    ensures
        r == spec_fit(width, height, max_dimension),
{
    if width == 0 || height == 0 || (width <= max_dimension && height <= max_dimension) {
        (width, height)
    } else if height <= width {
        proof {
            lemma_scaled_bounds(height, width, max_dimension);
        }
        (max_dimension, scaled_side(height, width, max_dimension))
    } else {
        proof {
            lemma_scaled_bounds(width, height, max_dimension);
        }
        (scaled_side(width, height, max_dimension), max_dimension)
    }
}

/// Whether to write the recompressed bytes or preserve the original file.
pub fn should_rewrite(ext_is_jpg: bool, compressed_len: u64, original_len: Option<u64>) -> (r:
    bool)
    ensures
        r == spec_should_rewrite(ext_is_jpg, compressed_len, original_len),
{
    if !ext_is_jpg {
        true
    } else {
        match original_len {
            None => true,
            Some(s) => (compressed_len as u128) < (s as u128) * 9 / 10,
        }
    }
}

/// Whether to write the recompressed bytes or preserve the original file,
/// from the source path itself and the two sizes (the original's size is
/// whatever the filesystem reported, if it did).
pub fn should_rewrite_file(src: &[u8], compressed_len: u64, original_len: Option<u64>) -> (r: bool)
    ensures
        r == spec_should_rewrite(spec_is_jpg(src@), compressed_len, original_len),
{
    let ext_is_jpg = crate::paths::has_jpg_extension(src);
    should_rewrite(ext_is_jpg, compressed_len, original_len)
}

/// Law: a raster already within the bound keeps its dimensions exactly.
pub proof fn lemma_fit_within_bound_is_identity(w: u32, h: u32, max: u32)
    requires
        w <= max,
        h <= max,
    ensures
        spec_fit(w, h, max) == (w, h),
{
}

/// Law: an oversized raster comes out with its longer side exactly at the
/// bound, neither side grown, and the aspect ratio kept within one pixel of
/// rounding.
pub proof fn lemma_fit_shrinks_to_bound(w: u32, h: u32, max: u32)
    requires
        1 <= w,
        1 <= h,
        1 <= max,
        max < w || max < h,
    ensures
        ({
            let (ow, oh) = spec_fit(w, h, max);
            &&& (if ow >= oh {
                ow
            } else {
                oh
            }) == max
            &&& ow <= w
            &&& oh <= h
            &&& 1 <= ow
            &&& 1 <= oh
            &&& ow <= max
            &&& oh <= max
            &&& (h <= w ==> oh * w <= h * max + w && h * max <= oh * w + w)
            &&& (w < h ==> ow * h <= w * max + h && w * max <= ow * h + h)
        }),
{
    if h <= w {
        assert(max < w);
        lemma_scaled_bounds(h, w, max);
    } else {
        lemma_scaled_bounds(w, h, max);
    }
}

/// Law: fitting is idempotent — a raster that already went through the
/// downscale passes a second one unchanged.
pub proof fn lemma_fit_idempotent(w: u32, h: u32, max: u32)
    requires
        1 <= max,
    ensures
        ({
            let (ow, oh) = spec_fit(w, h, max);
            spec_fit(ow, oh, max) == (ow, oh)
        }),
{
    if w == 0 || h == 0 || (w <= max && h <= max) {
    } else {
        lemma_fit_shrinks_to_bound(w, h, max);
    }
}

/// Law: converting a produced destination a second time preserves it rather
/// than rewriting, as long as recompression does not get strictly under the
/// nine-tenths threshold — the destination's extension is always `jpg`, so
/// only the size comparison decides, and its dimensions fit already.
pub proof fn lemma_reconvert_preserves(
    src: Seq<u8>,
    out_dir: Seq<u8>,
    dst: Seq<u8>,
    w: u32,
    h: u32,
    max: u32,
    compressed_len: u64,
    dst_len: u64,
)
    requires
        spec_destination(src, out_dir) == Some(dst),
        1 <= max,
        compressed_len >= dst_len * 9 / 10,
    ensures
        spec_is_jpg(dst),
        !spec_should_rewrite(spec_is_jpg(dst), compressed_len, Some(dst_len)),
        ({
            let (ow, oh) = spec_fit(w, h, max);
            spec_fit(ow, oh, max) == (ow, oh)
        }),
{
    crate::paths::lemma_destination_is_jpg(src, out_dir);
    lemma_fit_idempotent(w, h, max);
}

} // verus!
