//! Images as the library sees them: a width, a height and the bytes.

use vstd::prelude::*;

verus! {

/// An image in memory. Where it comes from a decoder, `data` holds four bytes
/// for each pixel, row by row: red, green, blue, alpha. The type itself
/// promises nothing of the length of `data`: the functions that take an
/// image hold the length against the width and height.
#[derive(Debug, PartialEq, Eq)]
pub struct Pixels {
    pub width: u32,
    pub height: u32,
    pub data: Vec<u8>,
}

/// The number of bytes of an image of this size with four bytes to the pixel.
pub open spec fn rgba_len(width: int, height: int) -> int {
    4 * width * height
}

/// The number of bytes of an image of this size with three bytes to the pixel.
pub open spec fn rgb_len(width: int, height: int) -> int {
    3 * width * height
}

} // verus!
