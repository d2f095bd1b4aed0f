//! The ways in which a request to the library can fail.

use vstd::prelude::*;

verus! {

/// Why no hash, or no image, came back.
#[derive(Clone, Copy, Debug, PartialEq, Eq, Structural)]
pub enum Error {
    /// A component count is below 1 or above 9.
    InvalidComponentCount,
    /// The pixel buffer does not hold what its width and height announce.
    BufferSizeMismatch,
    /// The string is shorter than any hash, or its length cannot be that of one.
    MalformedLength,
    /// The string's length is not the one that its first character announces.
    SizeMismatch,
    /// A character of the string is none of the 83 symbols.
    InvalidCharacter,
    /// The width or the height of the image is 0.
    EmptyImage,
    /// The image has more pixels than can be addressed: four bytes for each
    /// of them no longer fit in 32 bits.
    ImageTooLarge,
    /// The text is not base64.
    InvalidBase64,
    /// The bytes are in no image format that could be decoded.
    ImageDecoding,
    /// Reading the image's bytes failed.
    ImageIo,
    /// The image could not be loaded for another reason.
    ImageUnknown,
    /// The image's samples are floating-point numbers: such an image is not
    /// taken.
    FloatSamples,
}

} // verus!
