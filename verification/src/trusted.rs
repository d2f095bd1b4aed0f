//! The calls that leave the verified code. Verus takes the contract of each
//! item in this file on faith; each doc comment says what is claimed.

use crate::error::Error;
use crate::hash::is_hash_for;
use crate::pixels::Pixels;
use vstd::prelude::*;

verus! {

/// The error of `base64::decode`; nothing is known of what it holds.
#[verifier::external_type_specification]
#[verifier::external_body]
pub struct ExBase64DecodeError(base64::DecodeError);

/// The bytes that a text stands for in base64, or `None` where it stands for
/// none: what `base64::decode` gives for the text, which goes by the standard
/// alphabet.
pub uninterp spec fn base64_decoding(text: Seq<char>) -> Option<Seq<u8>>;

/// `base64::decode`: a function of the text alone, which either gives the
/// bytes or refuses the text.
#[verifier::external_body]
pub(crate) fn decode_base64(text: &str) -> (r: Result<Vec<u8>, base64::DecodeError>)
    ensures
        match r {
            Ok(bytes) => base64_decoding(text@) == Some(bytes@),
            Err(_) => base64_decoding(text@) is None,
        },
{
    base64::decode(text)
}

/// What `image::load_from_memory` makes of the bytes of a file: the width and
/// the height of the image that they hold, or the kind of its failure. An
/// image whose samples are floating-point numbers counts as a failure, of
/// the kind `FloatSamples`. The pixels have no part in it: some formats
/// compute them in floating point.
pub uninterp spec fn loaded_size(raw: Seq<u8>) -> Result<(u32, u32), Error>;

/// Whether `e` is one of the kinds of failure of `load_pixels`.
pub open spec fn is_load_error(e: Error) -> bool {
    e == Error::ImageDecoding || e == Error::ImageIo || e == Error::ImageUnknown || e
        == Error::FloatSamples
}

/// `image::load_from_memory`, then `dimensions` and `to_rgba8` of the image
/// that it gives. An image of floating-point samples (the variants
/// `ImageRgb32F` and `ImageRgba32F`) is not converted, since `to_rgba8`
/// panics on a sample that is no number: it is a failure of its own kind.
/// Claimed: whether the bytes are taken for an image, with which width and
/// height, and else with which kind of failure, depends on the bytes alone
/// (the format is guessed from their first bytes, they are read from memory,
/// and the limits are the crate's fixed ones); the bytes that come back are
/// four for each pixel, since `to_rgba8` allocates a buffer of that size; and
/// a failure of the loader is told by the variant of `image::ImageError`.
/// Nothing is claimed of which bytes are an image, nor of the colours.
#[verifier::external_body]
pub(crate) fn load_pixels(raw: &[u8]) -> (r: Result<Pixels, Error>)
    ensures
        match r {
            Ok(image) => image.data@.len() == 4 * image.width * image.height && loaded_size(raw@)
                == Ok::<(u32, u32), Error>((image.width, image.height)),
            Err(e) => is_load_error(e) && loaded_size(raw@) == Err::<(u32, u32), Error>(e),
        },
{
    match image::load_from_memory(raw) {
        Ok(image::DynamicImage::ImageRgb32F(_)) => Err(Error::FloatSamples),
        Ok(image::DynamicImage::ImageRgba32F(_)) => Err(Error::FloatSamples),
        Ok(img) => {
            let (width, height) = image::GenericImageView::dimensions(&img);
            Ok(Pixels { width, height, data: img.to_rgba8().into_vec() })
        },
        Err(image::ImageError::Decoding(_)) => Err(Error::ImageDecoding),
        Err(image::ImageError::IoError(_)) => Err(Error::ImageIo),
        Err(_) => Err(Error::ImageUnknown),
    }
}

/// `blurhash::encode`, on inputs on which it neither panics nor overflows:
/// both counts from 1 to 9, an image of at least one pixel, a buffer that
/// holds four bytes for each of the `width * height` pixels, and an index
/// into it that fits in 32 bits.
/// Claimed is the shape of what comes back, which its source shows for every
/// image: 4 + 2 * x * y characters, each taken from the alphabet by a digit
/// below 83; the first one for `(x - 1) + (y - 1) * 9`; the second one for 0
/// where there is no AC term; each AC term, three levels clamped to 0..=18,
/// written as a number of at most 6858. Nothing is claimed of the colours:
/// they come from floating-point sums whose precision std leaves open.
#[verifier::external_body]
pub(crate) fn encode_rgba(x: u32, y: u32, width: u32, height: u32, rgba: &[u8]) -> (hash: String)
    requires
        1 <= x <= 9,
        1 <= y <= 9,
        1 <= width,
        1 <= height,
        4 * width * height <= u32::MAX,
        4 * width * height <= rgba@.len(),
    ensures
        is_hash_for(hash@, x as int, y as int),
{
    blurhash::encode(x, y, width, height, rgba)
}

/// `String::push` of std: the string is afterwards what it was, with `c`
/// added at its end.
#[verifier::external_body]
pub(crate) fn push_char(s: &mut String, c: char)
    ensures
        final(s)@ == old(s)@.push(c),
{
    s.push(c);
}

} // verus!
