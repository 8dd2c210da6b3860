//! The codec boundary: metadata extraction, decode and lossless re-encode.
//!
//! These are the engine's only trusted items. Each wraps calls into the
//! `image` or `exif` crate whose results are pure functions of the wrapper's
//! arguments; each such result is given a name (`exif_unique_id`,
//! `decode_of`, `png_encode_of`) that the engine's contracts are stated over.

use crate::canvas::{Canvas, CanvasModel};
use image::codecs::png::{CompressionType, FilterType, PngEncoder};
use image::{ColorType, ExtendedColorType, ImageEncoder};
use vstd::prelude::*;

verus! {

/// The displayed text of the `ImageUniqueID` metadata field of an image, or
/// `None` when the metadata container cannot be read or the tag is absent.
pub uninterp spec fn exif_unique_id(bytes: Seq<u8>) -> Option<Seq<char>>;

/// The pixel buffer an image decodes to, or `None` when the bytes are not a
/// decodable image of a byte-aligned sample layout.
pub uninterp spec fn decode_of(bytes: Seq<u8>) -> Option<CanvasModel>;

/// The PNG stream a pixel buffer encodes to at best compression with
/// adaptive filtering, or `None` when the buffer cannot be encoded.
pub uninterp spec fn png_encode_of(c: CanvasModel) -> Option<Seq<u8>>;

/// Relies on exif's `Reader::read_from_container`, `Exif::get_field` with
/// the `ImageUniqueID` tag of the primary image, and `Value::display_as`:
/// together a pure function of the container bytes, here named
/// [`exif_unique_id`]; an unreadable container and an absent tag both give
/// `None`.
#[verifier::external_body]
pub fn read_unique_id(bytes: &[u8]) -> (r: Option<String>)
    ensures
        (r is Some) == (exif_unique_id(bytes@) is Some),
        r matches Some(s) ==> exif_unique_id(bytes@) == Some(s@),
{
    let mut cursor = std::io::Cursor::new(bytes);
    let meta = exif::Reader::new().read_from_container(&mut cursor).ok()?;
    let field = meta.get_field(exif::Tag::ImageUniqueID, exif::In::PRIMARY)?;
    Some(field.value.display_as(exif::Tag::ImageUniqueID).to_string())
}

/// Relies on image's `load_from_memory` and `DynamicImage`'s `width`,
/// `height`, `color` and `as_bytes`: a pure function of the input bytes,
/// here named [`decode_of`]. The decoded buffer holds exactly
/// `width * height` pixels of `channel_count` samples, 1, 2 or 4 bytes each,
/// so the result satisfies the canvas well-formedness invariant.
#[verifier::external_body]
pub fn decode_image(bytes: &[u8]) -> (r: Option<Canvas>)
    ensures
        (r is Some) == (decode_of(bytes@) is Some),
        r matches Some(c) ==> decode_of(bytes@) == Some(c@) && c@.wf(),
{
    let img = image::load_from_memory(bytes).ok()?;
    let (channels, bytes_per_channel): (u8, u8) = match img.color() {
        ColorType::L8 => (1, 1), ColorType::La8 => (2, 1),
        ColorType::Rgb8 => (3, 1), ColorType::Rgba8 => (4, 1),
        ColorType::L16 => (1, 2), ColorType::La16 => (2, 2),
        ColorType::Rgb16 => (3, 2), ColorType::Rgba16 => (4, 2),
        ColorType::Rgb32F => (3, 4), ColorType::Rgba32F => (4, 4),
        _ => return None,
    };
    let (width, height, data) = (img.width(), img.height(), img.as_bytes().to_vec());
    Some(Canvas { width, height, channels, bytes_per_channel, data })
}

/// Relies on image's `PngEncoder::new_with_quality` with best compression
/// and adaptive filtering and on `ImageEncoder::write_image`: a pure
/// function of the buffer, dimensions and sample layout, here named
/// [`png_encode_of`]. Well-formedness is required because `write_image`
/// panics when the buffer length does not match the dimensions.
#[verifier::external_body]
pub fn encode_png(c: &Canvas) -> (r: Option<Vec<u8>>)
    requires
        c@.wf(),
    ensures
        (r is Some) == (png_encode_of(c@) is Some),
        r matches Some(b) ==> png_encode_of(c@) == Some(b@),
{
    let color = match (c.channels, c.bytes_per_channel) {
        (1, 1) => ExtendedColorType::L8, (2, 1) => ExtendedColorType::La8,
        (3, 1) => ExtendedColorType::Rgb8, (4, 1) => ExtendedColorType::Rgba8,
        (1, 2) => ExtendedColorType::L16, (2, 2) => ExtendedColorType::La16,
        (3, 2) => ExtendedColorType::Rgb16, (4, 2) => ExtendedColorType::Rgba16,
        (3, 4) => ExtendedColorType::Rgb32F, (4, 4) => ExtendedColorType::Rgba32F,
        _ => return None,
    };
    let mut buf = std::io::Cursor::new(Vec::new());
    let enc = PngEncoder::new_with_quality(&mut buf, CompressionType::Best, FilterType::Adaptive);
    enc.write_image(&c.data, c.width, c.height, color).ok()?;
    Some(buf.into_inner())
}

} // verus!
