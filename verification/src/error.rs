//! The failure taxonomy of the descrambling engine.
//!
//! Every failure is surfaced to the immediate caller with enough structured
//! context to reproduce it; nothing is retried internally and no partial
//! output is ever returned.

use vstd::prelude::*;

verus! {

/// Mathematical model of a [`DescrambleError`], used by the specifications.
pub enum ErrorModel {
    /// The required metadata tag is absent from the container.
    MetadataMissing,
    /// A key token is not valid hexadecimal.
    KeyParse { token: Seq<char>, raw: Seq<char> },
    /// The image is smaller than the fixed border margins.
    InvalidDimensions { width: nat, height: nat },
    /// The underlying codec could not decode the input bytes.
    DecodeFailed,
    /// The underlying codec could not encode the reconstructed buffer.
    EncodeFailed,
    /// A computed tile rectangle lies outside a buffer's extents.
    TileCopy {
        dest_x: int,
        dest_y: int,
        src_x: int,
        src_y: int,
        width: int,
        height: int,
    },
}

/// Why a descramble invocation failed.
#[derive(Debug, Clone, PartialEq, Eq)]
pub enum DescrambleError {
    /// The `ImageUniqueID` tag was absent from the image metadata, or the
    /// metadata container itself could not be read.
    MetadataMissing,
    /// A segment of the metadata value is not valid hexadecimal; carries the
    /// offending segment and the full raw value for diagnostics.
    KeyParseError { token: String, raw: String },
    /// The image is not larger than the fixed 90x140 border margins.
    InvalidImageDimensions { width: u32, height: u32 },
    /// The input bytes are not a decodable raster image.
    ImageDecodeError,
    /// The reconstructed buffer could not be encoded.
    ImageEncodeError,
    /// A tile copy was requested whose source or destination rectangle falls
    /// outside the corresponding buffer; carries both origins and the common
    /// size for diagnostics.
    TileCopyError { dest_x: u64, dest_y: u64, src_x: u64, src_y: u64, width: u64, height: u64 },
}

impl View for DescrambleError {
    type V = ErrorModel;

    open spec fn view(&self) -> ErrorModel {
        match self {
            DescrambleError::MetadataMissing => ErrorModel::MetadataMissing,
            DescrambleError::KeyParseError { token, raw } => ErrorModel::KeyParse {
                token: token@,
                raw: raw@,
            },
            DescrambleError::InvalidImageDimensions { width, height } => {
                ErrorModel::InvalidDimensions { width: *width as nat, height: *height as nat }
            },
            DescrambleError::ImageDecodeError => ErrorModel::DecodeFailed,
            DescrambleError::ImageEncodeError => ErrorModel::EncodeFailed,
            DescrambleError::TileCopyError { dest_x, dest_y, src_x, src_y, width, height } => {
                ErrorModel::TileCopy {
                    dest_x: *dest_x as int,
                    dest_y: *dest_y as int,
                    src_x: *src_x as int,
                    src_y: *src_y as int,
                    width: *width as int,
                    height: *height as int,
                }
            },
        }
    }
}

impl DescrambleError {
    /// A short human-readable description of the failure kind.
    pub fn kind_name(&self) -> (r: &'static str)
        ensures
            r@ == match self@ {
                ErrorModel::MetadataMissing => "metadata missing"@,
                ErrorModel::KeyParse { .. } => "key parse error"@,
                ErrorModel::InvalidDimensions { .. } => "invalid image dimensions"@,
                ErrorModel::DecodeFailed => "image decode error"@,
                ErrorModel::EncodeFailed => "image encode error"@,
                ErrorModel::TileCopy { .. } => "tile copy error"@,
            },
    {
        match self {
            DescrambleError::MetadataMissing => "metadata missing",
            DescrambleError::KeyParseError { .. } => "key parse error",
            DescrambleError::InvalidImageDimensions { .. } => "invalid image dimensions",
            DescrambleError::ImageDecodeError => "image decode error",
            DescrambleError::ImageEncodeError => "image encode error",
            DescrambleError::TileCopyError { .. } => "tile copy error",
        }
    }
}

} // verus!
