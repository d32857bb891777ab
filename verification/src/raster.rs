//! Decoded rasters: decoding a byte buffer into an 8-bit RGB pixel buffer,
//! and the conditional downscale to the configured bound. The pixel work is
//! done by the `image` crate behind trusted wrappers; every decision about
//! dimensions is verified here.

use vstd::prelude::*;

use vstd::arithmetic::mul::{lemma_mul_inequality, lemma_mul_upper_bound};

use crate::errors::ConvertError;
use crate::policy::{fit_dimensions, spec_fit};

verus! {

/// The dimensions that decoding a byte buffer yields, when it decodes at
/// all. Decoding is a function of the bytes alone.
pub uninterp spec fn decoded_dims(bytes: Seq<u8>) -> Option<(u32, u32)>;

/// The RGB bytes that decoding a byte buffer yields, flattened row-major.
/// Like the dimensions, they are a function of the bytes alone.
pub uninterp spec fn decoded_pixels(bytes: Seq<u8>) -> Seq<u8>;

/// The RGB bytes of resampling a w-by-h RGB buffer to tw-by-th with the
/// smooth filter: a function of the buffer and the four dimensions alone.
pub uninterp spec fn resampled(pixels: Seq<u8>, w: u32, h: u32, tw: u32, th: u32) -> Seq<u8>;

/// Relies on image::load_from_memory, image::DynamicImage::to_rgb8 and
/// image::ImageBuffer::{dimensions, into_raw}: decoding is deterministic in
/// the byte buffer alone; a decoded raster flattened to 8-bit RGB holds
/// exactly width times height pixels of three bytes each, in row-major
/// order, and flattening keeps the decoded dimensions.
#[verifier::external_body]
fn decode_rgb(buf: &[u8]) -> (r: Option<(Vec<u8>, u32, u32)>)
    ensures
        r is Some <==> decoded_dims(buf@) is Some,
        r matches Some(t) ==> decoded_dims(buf@) == Some((t.1, t.2)) && t.0@ == decoded_pixels(
            buf@,
        ) && t.0@.len() == t.1 as int * t.2 as int * 3,
{
    match image::load_from_memory(buf) {
        Ok(img) => {
            let rgb = img.to_rgb8();
            let (w, h) = rgb.dimensions();
            Some((rgb.into_raw(), w, h))
        },
        Err(_) => None,
    }
}

/// Relies on image::RgbImage::from_raw, image::imageops::resize with
/// FilterType::CatmullRom, and image::ImageBuffer::into_raw: a w-by-h RGB
/// buffer resampled down to tw-by-th is an RGB buffer of exactly tw times
/// th pixels, three bytes each, in row-major order, a function of its
/// arguments alone. from_raw accepts any buffer of exactly w times h times
/// 3 bytes. Both target sides stay within the source's, so the resampler's
/// intermediate buffer of w times th pixels stays within a constant factor
/// of the source allocation, and its size check cannot trip on any source
/// buffer a machine can hold.
#[verifier::external_body]
fn resize_rgb(pixels: Vec<u8>, w: u32, h: u32, tw: u32, th: u32) -> (r: Vec<u8>)
    requires
        pixels@.len() == w as int * h as int * 3,
        1 <= tw,
        1 <= th,
        tw <= w,
        th <= h,
        tw as int * th as int * 3 <= pixels@.len(),
    ensures
        r@ == resampled(pixels@, w, h, tw, th),
        r@.len() == tw as int * th as int * 3,
{
    let img = image::RgbImage::from_raw(w, h, pixels).expect("buffer length matches dimensions");
    let out = image::imageops::resize(&img, tw, th, image::imageops::FilterType::CatmullRom);
    out.into_raw()
}

/// A decoded raster, flattened to an 8-bit RGB pixel buffer in row-major
/// order.
#[derive(Debug)]
pub struct Raster {
    /// Three bytes per pixel, row by row from the top.
    pub pixels: Vec<u8>,
    /// Width in pixels.
    pub width: u32,
    /// Height in pixels.
    pub height: u32,
}

impl Raster {
    /// The pixel buffer holds exactly the pixels the dimensions announce.
    pub open spec fn wf(&self) -> bool {
        self.pixels@.len() == self.width as int * self.height as int * 3
    }
}

/// One scanline of a raster: row `row` counted from the top, three bytes
/// per pixel. The encoder is fed these in row order.
pub fn scanline(r: &Raster, row: u32) -> (line: &[u8])
    requires
        r.wf(),
        row < r.height,
    ensures
        line@ == r.pixels@.subrange(
            row as int * (r.width as int * 3),
            (row as int + 1) * (r.width as int * 3),
        ),
        line@.len() == r.width as int * 3,
{
    proof {
        let w3: int = r.width as int * 3;
        lemma_mul_inequality(row as int + 1, r.height as int, w3);
        vstd::arithmetic::mul::lemma_mul_is_associative(r.height as int, r.width as int, 3);
        vstd::arithmetic::mul::lemma_mul_is_commutative(r.height as int, r.width as int);
        vstd::arithmetic::mul::lemma_mul_is_distributive_add_other_way(w3, row as int, 1);
        vstd::arithmetic::mul::lemma_mul_nonnegative(row as int, w3);
        lemma_mul_inequality(1, row as int + 1, w3);
        vstd::arithmetic::mul::lemma_mul_basics(w3);
        assert((row as int + 1) * w3 <= r.pixels@.len());
    }
    // pins the buffer's length as a machine word, so the index arithmetic
    // below is known to fit
    let _len: usize = r.pixels.len();
    let w3: usize = (r.width as usize) * 3;
    let start: usize = (row as usize) * w3;
    &r.pixels.as_slice()[start..start + w3]
}

/// Decode a source byte buffer into an RGB raster; a buffer that is no
/// image the decoder knows fails as a load error.
pub fn load_raster(buf: &[u8]) -> (r: Result<Raster, ConvertError>)
    ensures
        match r {
            Ok(rr) => rr.wf() && decoded_dims(buf@) == Some((rr.width, rr.height)) && rr.pixels@
                == decoded_pixels(buf@),
            Err(e) => e == ConvertError::Load && decoded_dims(buf@) is None,
        },
{
    match decode_rgb(buf) {
        Some((pixels, width, height)) => Ok(Raster { pixels, width, height }),
        None => Err(ConvertError::Load),
    }
}

/// Downscale a raster so neither side exceeds the bound, keeping the aspect
/// ratio; a raster already within the bound is returned untouched.
pub fn shrink_to_fit(r: Raster, max_dimension: u32) -> (out: Raster)
    requires
        r.wf(),
        1 <= max_dimension,
    ensures
        out.wf(),
        (out.width, out.height) == spec_fit(r.width, r.height, max_dimension),
        spec_fit(r.width, r.height, max_dimension) == (r.width, r.height) ==> out.pixels@
            == r.pixels@,
        spec_fit(r.width, r.height, max_dimension) != (r.width, r.height) ==> out.pixels@
            == resampled(r.pixels@, r.width, r.height, out.width, out.height),
{
    let (tw, th) = fit_dimensions(r.width, r.height, max_dimension);
    if tw == r.width && th == r.height {
        r
    } else {
        proof {
            crate::policy::lemma_fit_shrinks_to_bound(r.width, r.height, max_dimension);
            lemma_mul_upper_bound(tw as int, r.width as int, th as int, r.height as int);
            vstd::arithmetic::mul::lemma_mul_inequality(
                tw as int * th as int,
                r.width as int * r.height as int,
                3,
            );
        }
        let pixels = resize_rgb(r.pixels, r.width, r.height, tw, th);
        Raster { pixels, width: tw, height: th }
    }
}

/// Decode and conditionally downscale in one step: the raster handed to
/// compression. Its dimensions are exactly the fit of the decoded
/// dimensions to the bound, its pixels the decoded ones, resampled only
/// when the fit shrank them.
pub fn prepare_image(buf: &[u8], max_dimension: u32) -> (r: Result<Raster, ConvertError>)
    requires
        1 <= max_dimension,
    ensures
        match r {
            Ok(rr) => rr.wf() && (decoded_dims(buf@) matches Some(d) && (rr.width, rr.height)
                == spec_fit(d.0, d.1, max_dimension) && rr.pixels@ == (
            if spec_fit(d.0, d.1, max_dimension) == d {
                decoded_pixels(buf@)
            } else {
                resampled(decoded_pixels(buf@), d.0, d.1, rr.width, rr.height)
            })),
            Err(e) => e == ConvertError::Load && decoded_dims(buf@) is None,
        },
{
    let raster = load_raster(buf)?;
    Ok(shrink_to_fit(raster, max_dimension))
}

/// The immutable configuration shared by every conversion of a batch.
pub struct Config {
    /// Longest-side bound for the downscale, at least one pixel.
    pub max_dimension: u32,
    /// JPEG quality, between 1 and 100.
    pub quality: u8,
    /// Output directory: joined onto each source's parent when relative,
    /// used as-is when absolute.
    pub output_dir: Vec<u8>,
}

impl Config {
    /// The bounds that validation established.
    pub open spec fn wf(&self) -> bool {
        1 <= self.max_dimension && 1 <= self.quality <= 100
    }

    /// Validate the options once, before any conversion starts.
    pub fn new(max_dimension: u32, quality: u8, output_dir: Vec<u8>) -> (r: Option<Config>)
        ensures
            match r {
                Some(c) => c.wf() && c.max_dimension == max_dimension && c.quality == quality
                    && c.output_dir@ == output_dir@,
                None => !(1 <= max_dimension && 1 <= quality <= 100),
            },
    {
        if max_dimension >= 1 && quality >= 1 && quality <= 100 {
            Some(Config { max_dimension, quality, output_dir })
        } else {
            None
        }
    }
}

} // verus!
