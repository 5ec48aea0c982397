//! Workshop preview images: generation of a solid placeholder and bounded
//! full decoding, both through the `image` crate.

use vstd::prelude::*;

use std::io::Cursor;

use image::codecs::png::PngEncoder;
use image::{ExtendedColorType, ImageEncoder, ImageFormat, ImageReader, Limits};

use crate::text::push_str;

verus! {

/// Memory made available to the image decoder, in bytes.
pub const DECODED_DATA_MAX_BYTES: u64 = 2_000_000;

/// The RGBA pixels of the placeholder: `n` copies of one opaque color.
pub open spec fn fill_pixels(n: nat) -> Seq<u8>
    decreases n,
{
    if n == 0 {
        seq![]
    } else {
        fill_pixels((n - 1) as nat) + seq![44u8, 48u8, 46u8, 255u8]
    }
}

/// The PNG file that the `image` crate's PNG encoder writes for RGBA pixels
/// of the given dimensions, or `None` where it reports an error.
pub uninterp spec fn png_encoding(pixels: Seq<u8>, width: u32, height: u32) -> Option<Seq<u8>>;

/// The dimensions that the `image` crate reads from a PNG header, or the
/// text of its error.
pub uninterp spec fn png_header(data: Seq<u8>) -> Result<(u32, u32), Seq<char>>;

/// Whether the `image` crate fully decodes a PNG under the given width,
/// height and allocation limits, or the text of its error.
pub uninterp spec fn png_decode(data: Seq<u8>, width: u32, height: u32, max_alloc: u64) -> Result<(), Seq<char>>;

/// Encodes RGBA pixels as PNG (`PngEncoder::write_image` into memory). The
/// claim: the result is the named encoding; a zero dimension is reported
/// as an error. The encoder panics unless the buffer holds exactly four
/// bytes per pixel, which `requires` rules out.
#[verifier::external_body]
fn encode_rgba_png(pixels: &Vec<u8>, width: u32, height: u32) -> (r: Option<Vec<u8>>)
    requires
        pixels.len() == width as nat * height as nat * 4,
    ensures
        match r {
            Some(b) => png_encoding(pixels@, width, height) == Some(b@),
            None => png_encoding(pixels@, width, height) is None,
        },
        width == 0 || height == 0 ==> r is None,
{
    let mut png = Vec::new();
    match PngEncoder::new(&mut png).write_image(pixels, width, height, ExtendedColorType::Rgba8) {
        Ok(()) => Some(png),
        Err(_) => None,
    }
}

/// Reads the dimensions from a PNG header (`ImageReader::into_dimensions`
/// with the PNG format). The claim: the result is the named header reading.
#[verifier::external_body]
fn read_png_dimensions(data: &[u8]) -> (r: Result<(u32, u32), String>)
    ensures
        match r {
            Ok(d) => png_header(data@) == Ok::<(u32, u32), Seq<char>>(d),
            Err(e) => png_header(data@) == Err::<(u32, u32), Seq<char>>(e@),
        },
{
    ImageReader::with_format(Cursor::new(data), ImageFormat::Png).into_dimensions().map_err(|e| e.to_string())
}

/// Fully decodes a PNG (`ImageReader::decode`) under width, height and
/// allocation limits. The claim: the outcome is the named decoding.
#[verifier::external_body]
fn decode_png(data: &[u8], width: u32, height: u32, max_alloc: u64) -> (r: Result<(), String>)
    ensures
        match r {
            Ok(()) => png_decode(data@, width, height, max_alloc) == Ok::<(), Seq<char>>(()),
            Err(e) => png_decode(data@, width, height, max_alloc) == Err::<(), Seq<char>>(e@),
        },
{
    let mut reader = ImageReader::with_format(Cursor::new(data), ImageFormat::Png);
    let mut limits = Limits::default();
    limits.max_image_width = Some(width);
    limits.max_image_height = Some(height);
    limits.max_alloc = Some(max_alloc);
    reader.limits(limits);
    reader.decode().map(|_| ()).map_err(|e| e.to_string())
}

/// The pixels of the placeholder preview: `width * height` opaque pixels
/// of the scaffold color.
fn preview_pixels(width: u32, height: u32) -> (r: Vec<u8>)
    requires
        width as nat * height as nat * 4 <= usize::MAX,
    ensures
        r@ == fill_pixels(width as nat * height as nat),
        r.len() == width as nat * height as nat * 4,
{
    let count: usize = (width as u64 * height as u64) as usize;
    let mut pixels: Vec<u8> = Vec::new();
    let mut i: usize = 0;
    while i < count
        invariant
            i <= count,
            count == width as nat * height as nat,
            count * 4 <= usize::MAX,
            pixels@ == fill_pixels(i as nat),
            pixels.len() == i * 4,
        decreases count - i,
    {
        pixels.push(44);
        pixels.push(48);
        pixels.push(46);
        pixels.push(255);
        i = i + 1;
    }
    pixels
}

/// Generates an opaque RGBA PNG filled with the scaffold color, for
/// dimensions that the encoder accepts.
pub fn generate(width: u32, height: u32) -> (r: Vec<u8>)
    requires
        width as nat * height as nat * 4 <= usize::MAX,
        png_encoding(fill_pixels(width as nat * height as nat), width, height) is Some,
    ensures
        png_encoding(fill_pixels(width as nat * height as nat), width, height) == Some(r@),
{
    let pixels = preview_pixels(width, height);
    match encode_rgba_png(&pixels, width, height) {
        Some(b) => b,
        None => {
            proof {
                assert(false);
            }
            Vec::new()
        },
    }
}

/// Generates the placeholder PNG where the encoder accepts the dimensions,
/// and `None` where it reports an error (a zero dimension among them).
pub fn try_generate(width: u32, height: u32) -> (r: Option<Vec<u8>>)
    requires
        width as nat * height as nat * 4 <= usize::MAX,
    ensures
        match png_encoding(fill_pixels(width as nat * height as nat), width, height) {
            Some(b) => r matches Some(x) && x@ == b,
            None => r is None,
        },
        width == 0 || height == 0 ==> r is None,
{
    let pixels = preview_pixels(width, height);
    match encode_rgba_png(&pixels, width, height) {
        Some(_) => Some(generate(width, height)),
        None => None,
    }
}

/// What bounded decoding concludes from a header reading, before decoding:
/// the dimensions, or why decoding is refused.
pub open spec fn budget_of(header: Result<(u32, u32), Seq<char>>) -> Result<(u32, u32), Seq<char>> {
    match header {
        Err(e) => Err("invalid PNG header: "@ + e),
        Ok((w, h)) => if w as nat * h as nat * 4 > u64::MAX {
            Err("PNG dimensions exceed the decoding limit"@)
        } else if w as nat * h as nat * 4 > DECODED_DATA_MAX_BYTES {
            Err("PNG image data exceeds the decoding limit"@)
        } else {
            Ok((w, h))
        },
    }
}

/// The final outcome of inspecting PNG data.
pub open spec fn inspected(data: Seq<u8>) -> Result<(u32, u32), Seq<char>> {
    match budget_of(png_header(data)) {
        Err(e) => Err(e),
        Ok((w, h)) => match png_decode(data, w, h, DECODED_DATA_MAX_BYTES) {
            Err(e) => Err("invalid PNG image data: "@ + e),
            Ok(()) => Ok((w, h)),
        },
    }
}

/// A result with its error as plain characters.
pub open spec fn res_view<T>(r: Result<T, String>) -> Result<T, Seq<char>> {
    match r {
        Ok(v) => Ok(v),
        Err(e) => Err(e@),
    }
}

fn prefixed(prefix: &str, e: &str) -> (r: String)
    ensures
        r@ == prefix@ + e@,
{
    let mut s = String::new();
    push_str(&mut s, prefix);
    push_str(&mut s, e);
    s
}

/// Decides from a header reading whether the image may be decoded within
/// the decoding budget.
pub fn decode_budget(header: Result<(u32, u32), String>) -> (r: Result<(u32, u32), String>)
    ensures
        res_view(r) == budget_of(res_view(header)),
{
    match header {
        Err(e) => {
            proof { reveal_strlit("invalid PNG header: "); }
            Err(prefixed("invalid PNG header: ", e.as_str()))
        },
        Ok((w, h)) => {
            assert(w as nat * h as nat <= 0xffff_ffffu64 as nat * 0xffff_ffffu64 as nat) by (nonlinear_arith)
                requires w <= 0xffff_ffffu32, h <= 0xffff_ffffu32;
            let pixels: u64 = w as u64 * h as u64;
            if pixels > u64::MAX / 4 {
                return Err("PNG dimensions exceed the decoding limit".to_owned());
            }
            let bytes = pixels * 4;
            if bytes > DECODED_DATA_MAX_BYTES {
                return Err("PNG image data exceeds the decoding limit".to_owned());
            }
            Ok((w, h))
        },
    }
}

/// Concludes inspection from a full decoding's outcome.
pub fn decode_outcome(dimensions: (u32, u32), decoded: Result<(), String>) -> (r: Result<(u32, u32), String>)
    ensures
        res_view(r) == match res_view(decoded) {
            Err(e) => Err("invalid PNG image data: "@ + e),
            Ok(()) => Ok::<(u32, u32), Seq<char>>(dimensions),
        },
{
    match decoded {
        Err(e) => {
            proof { reveal_strlit("invalid PNG image data: "); }
            Err(prefixed("invalid PNG image data: ", e.as_str()))
        },
        Ok(()) => Ok(dimensions),
    }
}

/// Fully decodes a bounded PNG and returns its dimensions.
pub fn inspect(data: &[u8]) -> (r: Result<(u32, u32), String>)
    ensures
        res_view(r) == inspected(data@),
{
    let header = read_png_dimensions(data);
    match decode_budget(header) {
        Err(e) => Err(e),
        Ok((w, h)) => {
            let decoded = decode_png(data, w, h, DECODED_DATA_MAX_BYTES);
            decode_outcome((w, h), decoded)
        },
    }
}

} // verus!
