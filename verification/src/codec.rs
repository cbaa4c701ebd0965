//! Image and text codecs of the outside crates (`image`, `base64`), and the
//! frame conversions built on them.

use vstd::prelude::*;
use base64::Engine;
use image::ImageEncoder;
use crate::frame::{Frame, bgr_to_rgb_interleaved, crop_frame, is_rgb_interleaved_of, rgb_interleaved, rgb_interleaved_to_bgr};

verus! {

/// `image::ImageError`, the error of decoding and encoding.
#[verifier::external_type_specification]
#[verifier::external_body]
pub struct ExImageError(image::ImageError);

/// What `image::load_from_memory` followed by the conversion to 8-bit RGB
/// yields for these bytes: width, height and the pixel bytes row by row in
/// red-green-blue order, or nothing when the bytes are not a decodable
/// image.
pub uninterp spec fn decoded_rgb8(bytes: Seq<u8>) -> Option<(u32, u32, Seq<u8>)>;

/// What the JPEG encoder of `image` writes for an RGB buffer of the given
/// size at the given quality, or nothing when it refuses the image.
pub uninterp spec fn jpeg_encoded(width: u32, height: u32, rgb: Seq<u8>, quality: u8) -> Option<Seq<u8>>;

/// The sides that a JPEG image can have: 1 to 65535 pixels.
pub open spec fn jpeg_size_ok(width: u32, height: u32) -> bool {
    1 <= width <= 65535 && 1 <= height <= 65535
}

/// `image::load_from_memory`, with the decoded image converted to 8-bit RGB
/// (`DynamicImage::to_rgb8`, `ImageBuffer::dimensions`, `into_raw`). The
/// result is named by `decoded_rgb8`; the buffer of an `ImageBuffer` is
/// never shorter than three bytes per pixel.
#[verifier::external_body]
fn decode_rgb8(bytes: &[u8]) -> (r: Result<(u32, u32, Vec<u8>), image::ImageError>)
    ensures
        r is Ok <==> decoded_rgb8(bytes@) is Some,
        r matches Ok((w, h, data)) ==> decoded_rgb8(bytes@) == Some((w, h, data@)) && data@.len() >= (w as int)
            * (h as int) * 3,
{
    let rgb = image::load_from_memory(bytes)?.to_rgb8();
    let (w, h) = rgb.dimensions();
    Ok((w, h, rgb.into_raw()))
}

/// `JpegEncoder::new_with_quality` over a byte vector and
/// `ImageEncoder::write_image` with the 8-bit RGB color type. The output is
/// named by `jpeg_encoded`. The encoder panics unless the buffer holds
/// exactly three bytes per pixel, hence the precondition; it refuses an
/// image with a side of zero or above 65535 pixels (JPEG sides are 16-bit),
/// and writing into a vector does not fail otherwise.
#[verifier::external_body]
fn write_jpeg(rgb: &[u8], width: u32, height: u32, quality: u8) -> (r: Result<Vec<u8>, image::ImageError>)
    requires
        rgb@.len() == (width as int) * (height as int) * 3,
    ensures
        r is Ok <==> jpeg_encoded(width, height, rgb@, quality) is Some,
        r matches Ok(out) ==> jpeg_encoded(width, height, rgb@, quality) == Some(out@),
        r is Ok <==> jpeg_size_ok(width, height),
{
    let mut out: Vec<u8> = Vec::new();
    image::codecs::jpeg::JpegEncoder::new_with_quality(&mut out, quality).write_image(
        rgb,
        width,
        height,
        image::ExtendedColorType::Rgb8,
    )?;
    Ok(out)
}

/// Decode an image into a BGR frame; refused exactly when the bytes are
/// not a decodable image.
pub fn decode_to_bgr_frame(bytes: &[u8]) -> (r: Result<Frame, image::ImageError>)
    ensures
        r is Ok <==> decoded_rgb8(bytes@) is Some,
        r matches Ok(f) ==> {
            let (w, h, rgb) = decoded_rgb8(bytes@)->0;
            &&& f.wf()
            &&& f.width == w
            &&& f.height == h
            &&& forall|p: int, c: int| 0 <= p < f.pixels() && 0 <= c < 3 ==> #[trigger] f.chan(p, c) == rgb[3 * p + 2 - c]
        },
{
    let (w, h, rgb) = decode_rgb8(bytes)?;
    Ok(rgb_interleaved_to_bgr(w, h, &rgb))
}

/// Encode a BGR frame as a JPEG of quality 85.
pub fn encode_bgr_frame_to_jpeg(frame: &Frame) -> (r: Result<Vec<u8>, image::ImageError>)
    requires
        frame.wf(),
        frame.width <= u32::MAX,
        frame.height <= u32::MAX,
    ensures
        r is Ok <==> jpeg_encoded(frame.width as u32, frame.height as u32, rgb_interleaved(*frame), 85) is Some,
        r matches Ok(out) ==> jpeg_encoded(frame.width as u32, frame.height as u32, rgb_interleaved(*frame), 85)
            == Some(out@),
        r is Ok <==> jpeg_size_ok(frame.width as u32, frame.height as u32),
{
    let rgb = bgr_to_rgb_interleaved(frame);
    proof {
        vstd::arithmetic::mul::lemma_mul_is_commutative(frame.width as int, frame.height as int);
    }
    write_jpeg(rgb.as_slice(), frame.width as u32, frame.height as u32, 85)
}

/// An uploaded photo normalised for storage: the image decoded to 8-bit
/// RGB and encoded as a JPEG of quality 75 (the quality with which `image`
/// saves a `.jpg` file), over exactly its `width × height` pixels.
/// Refused when the bytes are not a decodable image or the image's sides
/// are not those of a JPEG.
pub fn normalized_photo_jpeg(bytes: &[u8]) -> (r: Result<Vec<u8>, image::ImageError>)
    ensures
        decoded_rgb8(bytes@) is None ==> r is Err,
        decoded_rgb8(bytes@) matches Some((w, h, rgb)) ==> {
            let pixels = rgb.take((w as int) * (h as int) * 3);
            &&& r is Ok <==> jpeg_size_ok(w, h)
            &&& r matches Ok(out) ==> jpeg_encoded(w, h, pixels, 75) == Some(out@)
        },
{
    let (w, h, rgb) = decode_rgb8(bytes)?;
    let len = rgb.len();
    proof {
        vstd::arithmetic::mul::lemma_mul_nonnegative(w as int, h as int);
        assert((w as int) * (h as int) * 3 <= len);
    }
    let n = (w as usize) * (h as usize) * 3;
    let pixels = vstd::slice::slice_subrange(rgb.as_slice(), 0, n);
    write_jpeg(pixels, w, h, 75)
}

/// Why an RGB buffer could not be encoded.
#[derive(Debug)]
pub enum JpegError {
    /// The buffer holds fewer than three bytes per pixel.
    InvalidDimensions,
    /// The encoder refused the image.
    Image(image::ImageError),
}

/// Encode an RGB buffer of `width × height` pixels as a JPEG of quality 80;
/// a buffer that is too short is refused.
pub fn encode_jpeg(width: u32, height: u32, rgb_pixels: &[u8]) -> (r: Result<Vec<u8>, JpegError>)
    requires
        rgb_pixels@.len() <= (width as int) * (height as int) * 3,
    ensures
        rgb_pixels@.len() < (width as int) * (height as int) * 3 ==> r matches Err(JpegError::InvalidDimensions),
        rgb_pixels@.len() == (width as int) * (height as int) * 3 ==> {
            &&& r is Ok <==> jpeg_encoded(width, height, rgb_pixels@, 80) is Some
            &&& r is Ok <==> jpeg_size_ok(width, height)
            &&& r matches Ok(out) ==> jpeg_encoded(width, height, rgb_pixels@, 80) == Some(out@)
            &&& r matches Err(e) ==> e is Image
        },
{
    proof {
        assert((width as int) * (height as int) <= 0xffff_ffffint * 0xffff_ffffint) by (nonlinear_arith)
            requires width <= 0xffff_ffffint, height <= 0xffff_ffffint;
        vstd::arithmetic::mul::lemma_mul_nonnegative(width as int, height as int);
    }
    let n = (width as u64) * (height as u64);
    let len = rgb_pixels.len();
    if (len as u64) / 3 < n || (len as u64) % 3 != 0 {
        return Err(JpegError::InvalidDimensions);
    }
    match write_jpeg(rgb_pixels, width, height, 80) {
        Ok(out) => Ok(out),
        Err(e) => Err(JpegError::Image(e)),
    }
}

/// The base64 digit of `v < 64` in the standard alphabet.
pub open spec fn base64_digit(v: nat) -> char {
    if v < 26 {
        (65 + v) as char
    } else if v < 52 {
        (97 + v - 26) as char
    } else if v < 62 {
        (48 + v - 52) as char
    } else if v == 62 {
        '+'
    } else {
        '/'
    }
}

/// Standard base64 (RFC 4648, alphabet `A–Z a–z 0–9 + /`, padded with `=`):
/// every three bytes become four digits; a final one or two bytes become
/// two or three digits and padding.
pub open spec fn base64_standard(s: Seq<u8>) -> Seq<char>
    decreases s.len(),
{
    if s.len() == 0 {
        Seq::empty()
    } else if s.len() == 1 {
        seq![base64_digit(s[0] as nat / 4), base64_digit((s[0] as nat % 4) * 16), '=', '=']
    } else if s.len() == 2 {
        seq![
            base64_digit(s[0] as nat / 4),
            base64_digit((s[0] as nat % 4) * 16 + s[1] as nat / 16),
            base64_digit((s[1] as nat % 16) * 4),
            '=',
        ]
    } else {
        seq![
            base64_digit(s[0] as nat / 4),
            base64_digit((s[0] as nat % 4) * 16 + s[1] as nat / 16),
            base64_digit((s[1] as nat % 16) * 4 + s[2] as nat / 64),
            base64_digit(s[2] as nat % 64),
        ] + base64_standard(s.subrange(3, s.len() as int))
    }
}

/// `base64::engine::general_purpose::STANDARD.encode`: standard base64 with
/// padding, as RFC 4648 and the crate's documentation give it. It panics
/// when the encoded length overflows `usize`, hence the precondition.
#[verifier::external_body]
pub(crate) fn encode_base64(bytes: &[u8]) -> (s: String)
    requires
        4 * ((bytes@.len() + 2) / 3) <= usize::MAX,
    ensures
        s@ == base64_standard(bytes@),
{
    base64::engine::general_purpose::STANDARD.encode(bytes)
}


/// What `image::imageops::resize` with the triangle filter yields for an
/// RGB image of `width × height` pixels resized to `new_width × new_height`.
pub uninterp spec fn triangle_resized(width: u32, height: u32, rgb: Seq<u8>, new_width: u32, new_height: u32) -> Seq<u8>;

/// `image::imageops::resize` with `FilterType::Triangle`, on the RGB image
/// that `ImageBuffer::from_raw` makes of the buffer; the resized pixels
/// come back through `into_raw`. `from_raw` gives nothing when the buffer
/// holds fewer than three bytes per pixel; the resized buffer holds exactly
/// three bytes per pixel of the new size, and is named by `triangle_resized`.
#[verifier::external_body]
fn resize_rgb_triangle(rgb: &[u8], width: u32, height: u32, new_width: u32, new_height: u32) -> (r: Option<Vec<u8>>)
    ensures
        r is Some <==> rgb@.len() >= (width as int) * (height as int) * 3,
        r matches Some(out) ==> out@ == triangle_resized(width, height, rgb@, new_width, new_height) && out@.len()
            == (new_width as int) * (new_height as int) * 3,
{
    let img: image::ImageBuffer<image::Rgb<u8>, Vec<u8>> = image::ImageBuffer::from_raw(width, height, rgb.to_vec())?;
    Some(image::imageops::resize(&img, new_width, new_height, image::imageops::FilterType::Triangle).into_raw())
}

/// Why a thumbnail could not be made.
#[derive(Debug)]
pub enum ThumbnailError {
    /// The crop region is empty.
    EmptyCrop,
    /// The encoder refused the image.
    Image(image::ImageError),
}

/// The red-green-blue bytes of the region of rows `y0..y1` and columns
/// `x0..x1` of a frame, row by row.
pub open spec fn cropped_rgb(f: Frame, y0: int, x0: int, y1: int, x1: int) -> Seq<u8> {
    let cw = x1 - x0;
    Seq::new(((y1 - y0) * cw * 3) as nat, |i: int| f.at(y0 + (i / 3) / cw, x0 + (i / 3) % cw, 2 - i % 3))
}

/// A 128 × 128 JPEG thumbnail (quality 85) of the region of rows `y0..y1`
/// and columns `x0..x1`; an empty region is refused.
pub fn make_thumbnail(frame: &Frame, x0: usize, y0: usize, x1: usize, y1: usize) -> (r: Result<
    Vec<u8>,
    ThumbnailError,
>)
    requires
        frame.wf(),
        x0 <= frame.width,
        x1 <= frame.width,
        y0 <= frame.height,
        y1 <= frame.height,
        frame.width <= u32::MAX,
        frame.height <= u32::MAX,
    ensures
        (x1 <= x0 || y1 <= y0) ==> r matches Err(ThumbnailError::EmptyCrop),
        (x0 < x1 && y0 < y1) ==> {
            let small = triangle_resized(
                (x1 - x0) as u32,
                (y1 - y0) as u32,
                cropped_rgb(*frame, y0 as int, x0 as int, y1 as int, x1 as int),
                128,
                128,
            );
            &&& r is Ok
            &&& jpeg_encoded(128, 128, small, 85) == Some(r->Ok_0@)
        },
{
    if x1 <= x0 || y1 <= y0 {
        return Err(ThumbnailError::EmptyCrop);
    }
    let crop = crop_frame(frame, y0, x0, y1, x1);
    let rgb = bgr_to_rgb_interleaved(&crop);
    proof {
        lemma_cropped_rgb(*frame, crop, y0 as int, x0 as int, y1 as int, x1 as int, rgb@);
        vstd::arithmetic::mul::lemma_mul_is_commutative(crop.width as int, crop.height as int);
    }
    let cw = (x1 - x0) as u32;
    let ch = (y1 - y0) as u32;
    match resize_rgb_triangle(rgb.as_slice(), cw, ch, 128, 128) {
        None => Err(ThumbnailError::EmptyCrop),
        Some(small) => match write_jpeg(small.as_slice(), 128, 128, 85) {
            Ok(out) => Ok(out),
            Err(e) => Err(ThumbnailError::Image(e)),
        },
    }
}

/// The interleaved bytes of a crop are the cropped bytes of the frame.
pub proof fn lemma_cropped_rgb(f: Frame, crop: Frame, y0: int, x0: int, y1: int, x1: int, rgb: Seq<u8>)
    requires
        crop.wf(),
        0 <= y0 < y1,
        0 <= x0 < x1,
        crop.height == y1 - y0,
        crop.width == x1 - x0,
        forall|dy: int, dx: int, c: int|
            0 <= dy < y1 - y0 && 0 <= dx < x1 - x0 && 0 <= c < 3 ==> #[trigger] crop.at(dy, dx, c) == f.at(
                y0 + dy,
                x0 + dx,
                c,
            ),
        is_rgb_interleaved_of(rgb, crop),
    ensures
        rgb == cropped_rgb(f, y0, x0, y1, x1),
{
    let cw = x1 - x0;
    let target = cropped_rgb(f, y0, x0, y1, x1);
    assert(rgb.len() == target.len());
    assert forall|i: int| 0 <= i < rgb.len() implies rgb[i] == target[i] by {
        let p = i / 3;
        let c = 2 - i % 3;
        let dy = p / cw;
        let dx = p % cw;
        vstd::arithmetic::div_mod::lemma_fundamental_div_mod(i, 3);
        vstd::arithmetic::div_mod::lemma_fundamental_div_mod(p, cw);
        assert(0 <= p < crop.pixels());
        assert(0 <= dx < cw) by (nonlinear_arith) requires cw > 0, dx == p % cw;
        assert(0 <= dy < y1 - y0) by (nonlinear_arith)
            requires cw > 0, dy == p / cw, 0 <= p < (y1 - y0) * cw;
        assert(rgb[3 * p + 2 - c] == crop.chan(p, c));
        assert(p == dy * cw + dx);
        assert(crop.chan(p, c) == crop.at(dy, dx, c));
    }
    assert(rgb =~= target);
}

} // verus!
