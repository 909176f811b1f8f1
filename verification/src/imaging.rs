use image::imageops::FilterType;
use image::codecs::jpeg::JpegEncoder;
use image::{load_from_memory_with_format, DynamicImage, ImageBuffer, ImageFormat, ImageReader, Luma};
use std::io::Cursor;
use image_hasher::{HashAlg, HasherConfig};
use vstd::prelude::*;
use zune_jpeg::zune_core::bytestream::ZCursor;
use zune_jpeg::zune_core::colorspace::ColorSpace;
use zune_jpeg::zune_core::options::DecoderOptions;
use zune_jpeg::JpegDecoder;

use crate::processor::compress::ResizeTarget;

verus! {

/// The bytes of an optional byte vector.
pub open spec fn bytes_option(o: Option<Vec<u8>>) -> Option<Seq<u8>> {
    match o {
        Some(v) => Some(v@),
        None => None,
    }
}

/// Size of the image that the `image` crate decodes from `bytes`, read in the format
/// that the file extension `ext` names; `None` when the extension names no format
/// or decoding fails.
pub uninterp spec fn spec_image_size(bytes: Seq<u8>, ext: Seq<char>) -> Option<(u32, u32)>;

/// Calls `image::load_from_memory_with_format` with `ImageFormat::from_extension(ext)`
/// (as `image::open` picks the format from the path's extension) and reads the size.
#[verifier::external_body]
pub(crate) fn decoded_size(bytes: &[u8], ext: &str) -> (r: Option<(u32, u32)>)
    ensures
        r == spec_image_size(bytes@, ext@),
{
    let img = load_from_memory_with_format(bytes, ImageFormat::from_extension(ext)?).ok()?;
    Some((img.width(), img.height()))
}

/// Size that the `image` crate reads from the header of `bytes` in the format that
/// `ext` names, without decoding the pixels.
pub uninterp spec fn spec_image_dimensions(bytes: Seq<u8>, ext: Seq<char>) -> Option<(u32, u32)>;

/// Calls `ImageReader::into_dimensions` on a reader with the format that `ext`
/// names (as `image::image_dimensions` does for a path).
#[verifier::external_body]
pub(crate) fn header_dimensions(bytes: &[u8], ext: &str) -> (r: Option<(u32, u32)>)
    ensures
        r == spec_image_dimensions(bytes@, ext@),
{
    let format = ImageFormat::from_extension(ext)?;
    ImageReader::with_format(Cursor::new(bytes), format).into_dimensions().ok()
}

/// JPEG bytes that the `image` crate writes for the image decoded from `bytes` (as
/// `decoded_size` reads it), resized exactly to `resize` with the Lanczos3 filter when
/// given, converted to RGB and encoded with `quality`.
pub uninterp spec fn spec_encoded_jpeg(
    bytes: Seq<u8>,
    ext: Seq<char>,
    resize: Option<ResizeTarget>,
    quality: u8,
) -> Option<Seq<u8>>;

/// Decodes with `image::load_from_memory_with_format`, resizes with
/// `DynamicImage::resize_exact(.., FilterType::Lanczos3)` when asked, and encodes
/// `to_rgb8()` with `JpegEncoder::new_with_quality`; `None` when decoding or encoding fails.
#[verifier::external_body]
pub(crate) fn encode_jpeg(bytes: &[u8], ext: &str, resize: Option<ResizeTarget>, quality: u8) -> (r: Option<Vec<u8>>)
    ensures
        bytes_option(r) == spec_encoded_jpeg(bytes@, ext@, resize, quality),
{
    let img = load_from_memory_with_format(bytes, ImageFormat::from_extension(ext)?).ok()?;
    let img = match resize {
        Some(t) => img.resize_exact(t.width, t.height, FilterType::Lanczos3),
        None => img,
    };
    let mut out = Cursor::new(Vec::new());
    img.to_rgb8().write_with_encoder(JpegEncoder::new_with_quality(&mut out, quality)).ok()?;
    Some(out.into_inner())
}

/// WebP bytes that the `webp` crate writes (lossy, with `quality`) for the image
/// decoded from `bytes` and resized as for `spec_encoded_jpeg`, taken as RGBA.
pub uninterp spec fn spec_encoded_webp(
    bytes: Seq<u8>,
    ext: Seq<char>,
    resize: Option<ResizeTarget>,
    quality: u8,
) -> Option<Seq<u8>>;

/// Decodes and resizes as `encode_jpeg` does, then encodes `to_rgba8()` with
/// `webp::Encoder::from_rgba(..).encode_simple(false, quality)`, the fallible form of
/// `Encoder::encode`; `None` when decoding or encoding fails.
#[verifier::external_body]
pub(crate) fn encode_webp(bytes: &[u8], ext: &str, resize: Option<ResizeTarget>, quality: u8) -> (r: Option<Vec<u8>>)
    ensures
        bytes_option(r) == spec_encoded_webp(bytes@, ext@, resize, quality),
{
    let img = load_from_memory_with_format(bytes, ImageFormat::from_extension(ext)?).ok()?;
    let img = match resize {
        Some(t) => img.resize_exact(t.width, t.height, FilterType::Lanczos3),
        None => img,
    };
    let rgba = img.to_rgba8();
    let data = webp::Encoder::from_rgba(&rgba, rgba.width(), rgba.height()).encode_simple(false, quality.into()).ok()?;
    Some(data.to_vec())
}

/// JPEG bytes of the thumbnail (fitting `size × size`, aspect kept) that the `image`
/// crate makes of the image decoded from `bytes`.
pub uninterp spec fn spec_thumbnail_jpeg(bytes: Seq<u8>, ext: Seq<char>, size: u32) -> Option<Seq<u8>>;

/// Decodes with `image::load_from_memory_with_format`, shrinks with
/// `DynamicImage::thumbnail(size, size)` and writes it with `write_to(.., ImageFormat::Jpeg)`.
#[verifier::external_body]
pub(crate) fn thumbnail_jpeg_bytes(bytes: &[u8], ext: &str, size: u32) -> (r: Option<Vec<u8>>)
    ensures
        bytes_option(r) == spec_thumbnail_jpeg(bytes@, ext@, size),
{
    let img = load_from_memory_with_format(bytes, ImageFormat::from_extension(ext)?).ok()?;
    let mut out = Cursor::new(Vec::new());
    img.thumbnail(size, size).write_to(&mut out, ImageFormat::Jpeg).ok()?;
    Some(out.into_inner())
}

/// Grey pixels (one byte each, row by row) and size of the image decoded from
/// `bytes`, as the `image` crate converts it to 8-bit luma.
pub uninterp spec fn spec_decoded_luma(bytes: Seq<u8>, ext: Seq<char>) -> Option<(u32, u32, Seq<u8>)>;

/// Decodes with `image::load_from_memory_with_format` and converts with `to_luma8()`.
#[verifier::external_body]
pub(crate) fn decoded_luma(bytes: &[u8], ext: &str) -> (r: Option<(u32, u32, Vec<u8>)>)
    ensures
        match (r, spec_decoded_luma(bytes@, ext@)) {
            (Some((w, h, p)), Some((sw, sh, sp))) => w == sw && h == sh && p@ == sp,
            (None, None) => true,
            _ => false,
        },
{
    let img = load_from_memory_with_format(bytes, ImageFormat::from_extension(ext)?).ok()?.to_luma8();
    Some((img.width(), img.height(), img.into_raw()))
}

/// Width and height that zune-jpeg reads from the header of a JPEG file.
pub uninterp spec fn spec_jpeg_header_size(bytes: Seq<u8>) -> Option<(u16, u16)>;

/// Calls `JpegDecoder::decode_headers` (output set to luma) and reads `info()`.
#[verifier::external_body]
pub(crate) fn jpeg_header_size(bytes: &[u8]) -> (r: Option<(u16, u16)>)
    ensures
        r == spec_jpeg_header_size(bytes@),
{
    let options = DecoderOptions::default().jpeg_set_out_colorspace(ColorSpace::Luma);
    let mut decoder = JpegDecoder::new_with_options(ZCursor::new(bytes), options);
    decoder.decode_headers().ok()?;
    decoder.info().map(|i| (i.width, i.height))
}

/// Grey pixels (one byte each, row by row) that zune-jpeg decodes from a JPEG file.
pub uninterp spec fn spec_jpeg_luma(bytes: Seq<u8>) -> Option<Seq<u8>>;

/// Calls `JpegDecoder::decode` with the output colour space set to luma.
#[verifier::external_body]
pub(crate) fn jpeg_luma(bytes: &[u8]) -> (r: Option<Vec<u8>>)
    ensures
        bytes_option(r) == spec_jpeg_luma(bytes@),
{
    let options = DecoderOptions::default().jpeg_set_out_colorspace(ColorSpace::Luma);
    JpegDecoder::new_with_options(ZCursor::new(bytes), options).decode().ok()
}

/// Size and grey pixels of the thumbnail (fitting `size × size`, aspect kept) that
/// the `image` crate makes of a `w × h` grey image; `None` when `pixels` holds fewer
/// than `w × h` bytes.
pub uninterp spec fn spec_luma_thumbnail(w: u32, h: u32, pixels: Seq<u8>, size: u32) -> Option<(u32, u32, Seq<u8>)>;

/// Builds the grey image with `ImageBuffer::from_raw` and shrinks it with
/// `DynamicImage::thumbnail(size, size)`.
#[verifier::external_body]
pub(crate) fn luma_thumbnail(w: u32, h: u32, pixels: &[u8], size: u32) -> (r: Option<(u32, u32, Vec<u8>)>)
    ensures
        match (r, spec_luma_thumbnail(w, h, pixels@, size)) {
            (Some((tw, th, p)), Some((sw, sh, sp))) => tw == sw && th == sh && p@ == sp,
            (None, None) => true,
            _ => false,
        },
{
    let buf = ImageBuffer::<Luma<u8>, Vec<u8>>::from_raw(w, h, pixels.to_vec())?;
    let small = DynamicImage::ImageLuma8(buf).thumbnail(size, size).into_luma8();
    Some((small.width(), small.height(), small.into_raw()))
}

/// Bytes of the gradient hash (`hash_w × hash_h` bits) that image_hasher computes
/// for a `w × h` grey image; `None` when `pixels` holds fewer than `w × h` bytes.
pub uninterp spec fn spec_gradient_hash(w: u32, h: u32, pixels: Seq<u8>, hash_w: u32, hash_h: u32) -> Option<Seq<u8>>;

/// Builds the grey image with `ImageBuffer::from_raw` and hashes it with a
/// `Hasher` configured for `HashAlg::Gradient` and `hash_size(hash_w, hash_h)`. The
/// hasher resizes to `(hash_w + 1) × hash_h`, compares each pixel with its right
/// neighbour (`hash_w × hash_h` bits) and packs the bits eight to a byte, the last
/// byte padded; hash sides of 0, or so large that those sizes overflow a `u32`, make
/// it panic, so the sides are kept within 1..=64.
#[verifier::external_body]
pub(crate) fn gradient_hash(w: u32, h: u32, pixels: &[u8], hash_w: u32, hash_h: u32) -> (r: Option<Vec<u8>>)
    requires
        1 <= hash_w <= 64,
        1 <= hash_h <= 64,
    ensures
        bytes_option(r) == spec_gradient_hash(w, h, pixels@, hash_w, hash_h),
        r matches Some(b) ==> b@.len() == (hash_w * hash_h + 7) / 8,
{
    let buf = ImageBuffer::<Luma<u8>, Vec<u8>>::from_raw(w, h, pixels.to_vec())?;
    let hasher = HasherConfig::new().hash_alg(HashAlg::Gradient).hash_size(hash_w, hash_h).to_hasher();
    Some(hasher.hash_image(&DynamicImage::ImageLuma8(buf)).as_bytes().to_vec())
}

} // verus!
