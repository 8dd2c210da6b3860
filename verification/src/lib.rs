//! A descrambling engine for tiled page images.
//!
//! A scrambled page arrives as an ordinary raster image whose interior has
//! been cut into fixed-size tiles and shuffled; the inverse permutation is
//! stored as a colon-separated list of hexadecimal keys in the image's
//! `ImageUniqueID` metadata field. The engine parses that key list, derives
//! the tile grid from the pixel dimensions, reassembles the page
//! pixel-for-pixel and re-encodes it losslessly as a PNG.

pub mod accounts;
pub mod canvas;
pub mod codec;
pub mod error;
pub mod geometry;
pub mod keys;
pub mod reconstruct;

use crate::codec::{decode_of, exif_unique_id, png_encode_of};
use crate::error::{DescrambleError, ErrorModel};
use crate::keys::parse_keys_spec;
use crate::reconstruct::reconstruct_spec;
use vstd::prelude::*;

verus! {

/// Everything descrambling returns, as a function of the input bytes alone:
/// the composition of metadata extraction, key parsing, decode,
/// reconstruction and lossless re-encode, or the first failure among them.
pub open spec fn descramble_model(bytes: Seq<u8>) -> Result<Seq<u8>, ErrorModel> {
    match exif_unique_id(bytes) {
        Option::None => Err(ErrorModel::MetadataMissing),
        Option::Some(raw) => match parse_keys_spec(raw) {
            Err(e) => Err(e),
            Ok(keys) => match decode_of(bytes) {
                Option::None => Err(ErrorModel::DecodeFailed),
                Option::Some(img) => match reconstruct_spec(img, keys) {
                    Err(e) => Err(e),
                    Ok(out) => match png_encode_of(out) {
                        Option::None => Err(ErrorModel::EncodeFailed),
                        Option::Some(b) => Ok(b),
                    },
                },
            },
        },
    }
}

/// Descramble one page: read the key sequence from the image's
/// `ImageUniqueID` metadata, decode the image, reassemble borders and
/// permuted interior tiles, and re-encode the result as a PNG at best
/// compression with adaptive filtering.
///
/// The result is exactly [`descramble_model`] of the input bytes — in
/// particular, descrambling the same bytes twice yields byte-identical
/// output, and every failure is the pipeline's first.
pub fn descramble_image(img_bytes: &[u8]) -> (r: Result<Vec<u8>, DescrambleError>)
    ensures
        match descramble_model(img_bytes@) {
            Ok(b) => r matches Ok(v) && v@ == b,
            Err(e) => r matches Err(err) && err@ == e,
        },
{
    let raw = match codec::read_unique_id(img_bytes) {
        Some(raw) => raw,
        None => {
            return Err(DescrambleError::MetadataMissing);
        },
    };
    let keys = match keys::parse_keys(raw.as_str()) {
        Ok(k) => k,
        Err(e) => {
            return Err(e);
        },
    };
    let img = match codec::decode_image(img_bytes) {
        Some(c) => c,
        None => {
            return Err(DescrambleError::ImageDecodeError);
        },
    };
    let out = match reconstruct::descramble_canvas(&img, &keys) {
        Ok(o) => o,
        Err(e) => {
            return Err(e);
        },
    };
    match codec::encode_png(&out) {
        Some(b) => Ok(b),
        None => Err(DescrambleError::ImageEncodeError),
    }
}

} // verus!
