use vstd::prelude::*;
use vstd::arithmetic::div_mod::{lemma_fundamental_div_mod, lemma_mod_bound};
use crate::errors::{PipelineError, is_encoding_failure};

verus! {

/// The larger of an image's two dimensions.
pub open spec fn max_dim(w: int, h: int) -> int {
    if w >= h {
        w
    } else {
        h
    }
}

/// The cap applied to the larger dimension before encoding, in pixels.
pub open spec fn dimension_cap() -> int {
    1920
}

/// Whether the outside decoder accepts the bytes as a raster image; decoding
/// is a function of the bytes alone.
pub uninterp spec fn image_decodes(bytes: Seq<u8>) -> bool;

/// The decoder's message on bytes it refuses.
pub uninterp spec fn decode_error_of(bytes: Seq<u8>) -> Seq<char>;

/// The width of the decoded image.
pub uninterp spec fn decoded_width(bytes: Seq<u8>) -> u32;

/// The height of the decoded image.
pub uninterp spec fn decoded_height(bytes: Seq<u8>) -> u32;

/// The decoded image flattened to opaque 8-bit RGB, row-major.
pub uninterp spec fn decoded_rgb_of(bytes: Seq<u8>) -> Seq<u8>;

/// The width the outside resampler settles on when re-fitting a w x h image
/// within (nw, nh); a function of the four dimensions alone.
pub uninterp spec fn resized_width(w: u32, h: u32, nw: u32, nh: u32) -> u32;

/// The height the outside resampler settles on; see `resized_width`.
pub uninterp spec fn resized_height(w: u32, h: u32, nw: u32, nh: u32) -> u32;

/// The RGB pixels of the resampled image; a function of the input pixels and
/// the dimensions alone.
pub uninterp spec fn resized_rgb_of(rgb: Seq<u8>, w: u32, h: u32, nw: u32, nh: u32) -> Seq<u8>;

/// The JPEG encoding of an RGB image at a quality; a function of pixels,
/// dimensions and quality alone.
pub uninterp spec fn jpeg_bytes_of(rgb: Seq<u8>, w: u32, h: u32, quality: u8) -> Seq<u8>;

/// Relies on image::load_from_memory and DynamicImage::to_rgb8: decoding and
/// flattening depend on the bytes alone, malformed input returns the decode
/// error, and the raw buffer of a w x h RGB image holds exactly 3*w*h bytes.
#[verifier::external_body]
fn decode_rgb(bytes: &[u8]) -> (r: Result<(Vec<u8>, u32, u32), String>)
    ensures
        r is Ok == image_decodes(bytes@),
        r matches Ok(t) ==> t.0@ == decoded_rgb_of(bytes@) && t.1 == decoded_width(bytes@) && t.2
            == decoded_height(bytes@) && t.0@.len() == 3 * (t.1 as int) * (t.2 as int),
        r matches Err(m) ==> m@ == decode_error_of(bytes@),
{
    match image::load_from_memory(bytes) {
        Ok(img) => {
            let rgb = img.to_rgb8();
            let (w, h) = rgb.dimensions();
            Ok((rgb.into_raw(), w, h))
        },
        Err(e) => Err(e.to_string()),
    }
}

/// Relies on image::DynamicImage::resize with the Lanczos filter: it scales
/// to the largest size that fits within (nw, nh) keeping the aspect ratio,
/// never below one pixel; the output dimensions depend on the four
/// dimensions alone and the output pixels on the input pixels and dimensions.
#[verifier::external_body]
fn resize_rgb(rgb: &[u8], w: u32, h: u32, nw: u32, nh: u32) -> (r: Result<
    (Vec<u8>, u32, u32),
    String,
>)
    requires
        1 <= w,
        1 <= h,
        1 <= nw,
        1 <= nh,
        rgb@.len() == 3 * (w as int) * (h as int),
    ensures
        r is Ok,
        r matches Ok(t) ==> t.0@ == resized_rgb_of(rgb@, w, h, nw, nh) && t.1 == resized_width(
            w,
            h,
            nw,
            nh,
        ) && t.2 == resized_height(w, h, nw, nh) && 1 <= t.1 <= nw && 1 <= t.2 <= nh && t.0@.len()
            == 3 * (t.1 as int) * (t.2 as int),
{
    let buf = match image::RgbImage::from_raw(w, h, rgb.to_vec()) {
        Some(b) => b,
        None => return Err("buffer length mismatch".to_string()),
    };
    let scaled = image::DynamicImage::ImageRgb8(buf).resize(
        nw,
        nh,
        image::imageops::FilterType::Lanczos3,
    );
    let out = scaled.to_rgb8();
    let (rw, rh) = out.dimensions();
    Ok((out.into_raw(), rw, rh))
}

/// Relies on image::codecs::jpeg::JpegEncoder::encode: for a well-sized RGB
/// buffer whose dimensions lie in the encoder's range it succeeds, and the
/// encoding depends on pixels, dimensions and quality alone. Its documented
/// quality range is 1-100, and it refuses dimensions of zero or above 65535.
#[verifier::external_body]
fn encode_jpeg_rgb(rgb: &[u8], w: u32, h: u32, quality: u8) -> (r: Result<Vec<u8>, String>)
    requires
        1 <= w <= 65535,
        1 <= h <= 65535,
        rgb@.len() == 3 * (w as int) * (h as int),
        1 <= quality <= 100,
    ensures
        r is Ok,
        r matches Ok(v) ==> v@ == jpeg_bytes_of(rgb@, w, h, quality),
{
    let mut out = Vec::new();
    let mut enc = image::codecs::jpeg::JpegEncoder::new_with_quality(&mut out, quality);
    match enc.encode(rgb, w, h, image::ExtendedColorType::Rgb8) {
        Ok(()) => Ok(out),
        Err(e) => Err(e.to_string()),
    }
}

/// The width an image is scaled to: unchanged within the cap; otherwise the
/// exact ratio rounded to the nearest integer, at least one pixel.
pub open spec fn spec_target_width(w: int, h: int) -> int {
    let l = max_dim(w, h);
    if l <= dimension_cap() {
        w
    } else {
        let q = (w * dimension_cap() + l / 2) / l;
        if q < 1 {
            1
        } else {
            q
        }
    }
}

/// The height an image is scaled to; see `spec_target_width`.
pub open spec fn spec_target_height(w: int, h: int) -> int {
    let l = max_dim(w, h);
    if l <= dimension_cap() {
        h
    } else {
        let q = (h * dimension_cap() + l / 2) / l;
        if q < 1 {
            1
        } else {
            q
        }
    }
}

/// Computes the target dimensions exactly as the specification states them.
pub fn target_dimensions(w: u32, h: u32) -> (r: (u32, u32))
    ensures
        r.0 as int == spec_target_width(w as int, h as int),
        r.1 as int == spec_target_height(w as int, h as int),
{
    if w <= 1920 && h <= 1920 {
        return (w, h);
    }
    let largest: u64 = if w >= h {
        w as u64
    } else {
        h as u64
    };
    proof {
        assert(largest == max_dim(w as int, h as int));
        assert(largest > 1920);
        lemma_rounded_scale(w as int, largest as int);
        lemma_rounded_scale(h as int, largest as int);
    }
    let nw64: u64 = ((w as u64) * 1920 + largest / 2) / largest;
    let nh64: u64 = ((h as u64) * 1920 + largest / 2) / largest;
    let nw: u32 = if nw64 < 1 {
        1
    } else {
        nw64 as u32
    };
    let nh: u32 = if nh64 < 1 {
        1
    } else {
        nh64 as u32
    };
    (nw, nh)
}

/// Downscaling never upscales and keeps the aspect ratio within one pixel of
/// rounding: an image within the cap keeps its dimensions; an oversized one
/// has its larger dimension land exactly on the cap, neither dimension above
/// the cap nor below one pixel, and both within one pixel of the exact ratio.
pub proof fn lemma_target_dimensions_bounds(w: int, h: int)
    requires
        0 <= w,
        0 <= h,
    ensures
        max_dim(w, h) <= dimension_cap() ==> spec_target_width(w, h) == w && spec_target_height(
            w,
            h,
        ) == h,
        max_dim(w, h) > dimension_cap() ==> ({
            let largest = max_dim(w, h);
            let nw = spec_target_width(w, h);
            let nh = spec_target_height(w, h);
            &&& 1 <= nw <= dimension_cap()
            &&& 1 <= nh <= dimension_cap()
            &&& (if w >= h {
                nw == dimension_cap()
            } else {
                nh == dimension_cap()
            })
            &&& nw * largest <= w * dimension_cap() + largest
            &&& w * dimension_cap() <= nw * largest + largest
            &&& nh * largest <= h * dimension_cap() + largest
            &&& h * dimension_cap() <= nh * largest + largest
        }),
{
    if max_dim(w, h) > dimension_cap() {
        let l = max_dim(w, h);
        lemma_rounded_scale(w, l);
        lemma_rounded_scale(h, l);
        lemma_rounded_scale_self(l);
    }
}

/// Bounds for one rounded scaling step: `q = (x * cap + l / 2) / l` lies
/// within one of the exact ratio, and never exceeds the cap when `x <= l`.
proof fn lemma_rounded_scale(x: int, l: int)
    requires
        0 <= x <= l,
        l > 1920,
    ensures
        ({
            let q = (x * 1920 + l / 2) / l;
            &&& 0 <= q <= 1920
            &&& q * l <= x * 1920 + l
            &&& x * 1920 <= q * l + l
            &&& (q == 0 ==> x * 1920 <= l)
        }),
{
    let t = x * 1920 + l / 2;
    let q = t / l;
    let m = t % l;
    lemma_fundamental_div_mod(t, l);
    lemma_mod_bound(t, l);
    assert(x * 1920 >= 0) by (nonlinear_arith)
        requires
            x >= 0,
    ;
    assert(t == q * l + m);
    assert(q >= 0) by (nonlinear_arith)
        requires
            q * l + m >= 0,
            0 <= m < l,
            l > 0,
    ;
    assert(x * 1920 <= l * 1920) by (nonlinear_arith)
        requires
            x <= l,
            l > 0,
    ;
    assert(q * l <= l * 1920 + l / 2);
    assert(q <= 1920) by (nonlinear_arith)
        requires
            q * l <= l * 1920 + l / 2,
            l > 1920,
            0 <= q,
    ;
    assert(q * l <= x * 1920 + l);
    assert(x * 1920 <= q * l + l);
    if q == 0 {
        assert(x * 1920 == m - l / 2);
        assert(x * 1920 <= l);
    }
}

/// Scaling the larger dimension by itself gives exactly the cap.
proof fn lemma_rounded_scale_self(l: int)
    requires
        l > 1920,
    ensures
        (l * 1920 + l / 2) / l == 1920,
{
    let t = l * 1920 + l / 2;
    let q = t / l;
    let m = t % l;
    lemma_fundamental_div_mod(t, l);
    lemma_mod_bound(t, l);
    assert(t == q * l + m);
    assert(q <= 1920) by (nonlinear_arith)
        requires
            q * l + m == l * 1920 + l / 2,
            0 <= m < l,
            l > 1920,
    ;
    assert(q >= 1920) by (nonlinear_arith)
        requires
            q * l + m == l * 1920 + l / 2,
            0 <= m < l,
            l > 1920,
    ;
}

/// The RGB pixels the encoder runs on: the decode, downscaled to the target
/// dimensions where those differ from the image's own.
pub open spec fn spec_scaled_rgb(b: Seq<u8>) -> Seq<u8> {
    let w = decoded_width(b);
    let h = decoded_height(b);
    let tw = spec_target_width(w as int, h as int) as u32;
    let th = spec_target_height(w as int, h as int) as u32;
    if tw == w && th == h {
        decoded_rgb_of(b)
    } else {
        resized_rgb_of(decoded_rgb_of(b), w, h, tw, th)
    }
}

/// The width the encoder runs on; see `spec_scaled_rgb`.
pub open spec fn spec_scaled_w(b: Seq<u8>) -> u32 {
    let w = decoded_width(b);
    let h = decoded_height(b);
    let tw = spec_target_width(w as int, h as int) as u32;
    let th = spec_target_height(w as int, h as int) as u32;
    if tw == w && th == h {
        w
    } else {
        resized_width(w, h, tw, th)
    }
}

/// The height the encoder runs on; see `spec_scaled_rgb`.
pub open spec fn spec_scaled_h(b: Seq<u8>) -> u32 {
    let w = decoded_width(b);
    let h = decoded_height(b);
    let tw = spec_target_width(w as int, h as int) as u32;
    let th = spec_target_height(w as int, h as int) as u32;
    if tw == w && th == h {
        h
    } else {
        resized_height(w, h, tw, th)
    }
}

/// What the descending quality ladder returns: the encoding at the first
/// quality, from 85 down in steps of five to 45, that fits the budget; `None`
/// when none fits.
pub open spec fn spec_ladder(rgb: Seq<u8>, w: u32, h: u32, max: int, q: int) -> Option<Seq<u8>>
    decreases q,
{
    if q < 45 {
        None
    } else {
        let e = jpeg_bytes_of(rgb, w, h, q as u8);
        if e.len() <= max {
            Some(e)
        } else {
            spec_ladder(rgb, w, h, max, q - 5)
        }
    }
}

/// The compressor's successful result as a function of the input bytes and
/// the budget: the first ladder encoding of the scaled, flattened decode that
/// fits; `None` where the bytes do not decode, are degenerate, or no ladder
/// quality fits.
pub open spec fn spec_compress_result(b: Seq<u8>, max: int) -> Option<Seq<u8>> {
    if image_decodes(b) && decoded_width(b) >= 1 && decoded_height(b) >= 1 {
        spec_ladder(spec_scaled_rgb(b), spec_scaled_w(b), spec_scaled_h(b), max, 85)
    } else {
        None
    }
}

/// Re-encodes raw image bytes as a JPEG no larger than `max_bytes`: decode,
/// downscale to the dimension cap if oversized, flatten to opaque RGB, and
/// encode at descending quality levels until one fits the budget. The call
/// succeeds exactly where the bytes decode to a non-degenerate image and some
/// ladder quality fits, returning that first fitting encoding; undecodable
/// input fails with the decode error; a budget no ladder step meets fails
/// with the fixed message; an oversized result is never returned.
pub fn compress_image_to_jpeg_under_limit(bytes: &[u8], max_bytes: u64) -> (r: Result<
    Vec<u8>,
    PipelineError,
>)
    ensures
        ({
            let b = bytes@;
            let res = spec_compress_result(b, max_bytes as int);
            &&& (r matches Ok(v) ==> res == Some(v@) && v@.len() <= max_bytes)
            &&& (res matches Some(v) ==> r matches Ok(out) && out@ == v)
            &&& (!image_decodes(b) ==> (r matches Err(e) && is_encoding_failure(
                e,
                decode_error_of(b),
            )))
            &&& (image_decodes(b) && (decoded_width(b) == 0 || decoded_height(b) == 0) ==> (
            r matches Err(e) && e is EncodingFailure))
            &&& (image_decodes(b) && decoded_width(b) >= 1 && decoded_height(b) >= 1
                && res is None ==> (r matches Err(e) && is_encoding_failure(
                e,
                "unable to compress image under size limit"@,
            )))
            &&& (r matches Err(e) ==> e is EncodingFailure)
        }),
{
    let (rgb, w, h) = match decode_rgb(bytes) {
        Ok(t) => t,
        Err(m) => {
            return Err(PipelineError::EncodingFailure(m));
        },
    };
    if w == 0 || h == 0 {
        return Err(PipelineError::EncodingFailure(String::from_str("invalid image dimensions")));
    }
    let (nw, nh) = target_dimensions(w, h);
    proof {
        lemma_target_dimensions_bounds(w as int, h as int);
    }
    let (rgb2, w2, h2) = if nw != w || nh != h {
        match resize_rgb(rgb.as_slice(), w, h, nw, nh) {
            Ok(t) => t,
            Err(m) => {
                return Err(PipelineError::EncodingFailure(m));
            },
        }
    } else {
        (rgb, w, h)
    };
    let mut quality: u8 = 85;
    while quality >= 45
        invariant
            quality <= 85,
            1 <= w2 <= 65535,
            1 <= h2 <= 65535,
            rgb2@.len() == 3 * (w2 as int) * (h2 as int),
            rgb2@ == spec_scaled_rgb(bytes@),
            w2 == spec_scaled_w(bytes@),
            h2 == spec_scaled_h(bytes@),
            image_decodes(bytes@),
            decoded_width(bytes@) >= 1,
            decoded_height(bytes@) >= 1,
            spec_ladder(rgb2@, w2, h2, max_bytes as int, 85) == spec_ladder(
                rgb2@,
                w2,
                h2,
                max_bytes as int,
                quality as int,
            ),
        decreases quality,
    {
        let out = match encode_jpeg_rgb(rgb2.as_slice(), w2, h2, quality) {
            Ok(v) => v,
            Err(m) => {
                return Err(PipelineError::EncodingFailure(m));
            },
        };
        if (out.len() as u64) <= max_bytes {
            proof {
                assert(spec_ladder(rgb2@, w2, h2, max_bytes as int, quality as int) == Some(out@));
            }
            return Ok(out);
        }
        proof {
            assert(spec_ladder(rgb2@, w2, h2, max_bytes as int, quality as int) == spec_ladder(
                rgb2@,
                w2,
                h2,
                max_bytes as int,
                quality as int - 5,
            ));
        }
        quality = quality - 5;
    }
    proof {
        assert(spec_ladder(rgb2@, w2, h2, max_bytes as int, quality as int) is None);
    }
    Err(PipelineError::EncodingFailure(String::from_str("unable to compress image under size limit")))
}

} // verus!
