//! From a hash to pixels: what is settled before the decoder is called, and
//! what is made of the bytes that it gives. The call itself is the caller's:
//! it takes the contrast as a real number, which this library does not hold.
//! So `decoded_len` is asked first, and `blurhash_to_image_data` is handed the
//! bytes that the decoder gave.

use crate::error::Error;
use crate::base83::is_symbol;
use crate::hash::{lemma_foreign_character_refused, validate, validated};
use crate::pixels::{rgba_len, Pixels};
use vstd::prelude::*;

verus! {

/// Whether a string can be decoded at `width` by `height`, and the number of
/// bytes that the image then has: the string is looked at first, by the rules
/// of `validated`, then the size, which is to be that of an image whose
/// bytes can be addressed in 32 bits.
pub open spec fn decode_verdict(hash: Seq<char>, width: int, height: int) -> Result<u32, Error> {
    match validated(hash) {
        Err(e) => Err(e),
        Ok(_) => if width == 0 || height == 0 {
            Err(Error::EmptyImage)
        } else if rgba_len(width, height) > u32::MAX {
            Err(Error::ImageTooLarge)
        } else {
            Ok(rgba_len(width, height) as u32)
        },
    }
}

/// Decides whether `hash` can be decoded at `width` by `height`, and gives
/// the number of bytes of the image: four for each pixel.
pub fn decoded_len(hash: &str, width: u32, height: u32) -> (r: Result<u32, Error>)
    ensures
        r == decode_verdict(hash@, width as int, height as int),
{
    match validate(hash) {
        Err(e) => Err(e),
        Ok(_) => {
            assert(0 <= width * height <= 0xffff_ffff * 0xffff_ffff) by (nonlinear_arith)
                requires
                    0 <= width <= 0xffff_ffff,
                    0 <= height <= 0xffff_ffff,
            ;
            let area: u64 = (width as u64) * (height as u64);
            assert(4 * width * height == 4 * area) by (nonlinear_arith)
                requires
                    area == width * height,
            ;
            if width == 0 || height == 0 {
                Err(Error::EmptyImage)
            } else if area > 0x3fff_ffff {
                Err(Error::ImageTooLarge)
            } else {
                Ok((4 * area) as u32)
            }
        },
    }
}

/// A string that holds a character from outside the alphabet is not decoded,
/// at whatever size.
pub proof fn lemma_foreign_character_not_decoded(
    hash: Seq<char>,
    i: int,
    width: int,
    height: int,
)
    requires
        0 <= i < hash.len(),
        !is_symbol(hash[i]),
    ensures
        decode_verdict(hash, width, height) is Err,
{
    lemma_foreign_character_refused(hash, i);
}

/// Whether the bytes that a decoder gave for `hash` at `width` by `height`
/// make an image: the string and the size are looked at first, by the rules
/// of `decode_verdict`, then the number of bytes, which has to be four for
/// each pixel, no more and no fewer.
pub open spec fn image_data_verdict(hash: Seq<char>, width: int, height: int, len: int) -> Result<
    (),
    Error,
> {
    match decode_verdict(hash, width, height) {
        Err(e) => Err(e),
        Ok(owed) => if len != owed {
            Err(Error::BufferSizeMismatch)
        } else {
            Ok(())
        },
    }
}

/// Makes the image of `blurhash` at `width` by `height` of the bytes that a
/// decoder gave for it. The string has to be one that can be decoded at this
/// size, and the bytes four for each pixel; they are kept as they are.
pub fn blurhash_to_image_data(
    blurhash: &str,
    width: u32,
    height: u32,
    raw_decoding: Vec<u8>,
) -> (r: Result<Pixels, Error>)
    ensures
        match r {
            Ok(image) => image_data_verdict(
                blurhash@,
                width as int,
                height as int,
                raw_decoding@.len() as int,
            ) is Ok && image.width == width && image.height == height && image.data@
                == raw_decoding@ && image.data@.len() == rgba_len(width as int, height as int),
            Err(e) => image_data_verdict(
                blurhash@,
                width as int,
                height as int,
                raw_decoding@.len() as int,
            ) == Err::<(), Error>(e),
        },
{
    match decoded_len(blurhash, width, height) {
        Err(e) => Err(e),
        Ok(owed) => {
            if raw_decoding.len() != owed as usize {
                Err(Error::BufferSizeMismatch)
            } else {
                Ok(Pixels { width, height, data: raw_decoding })
            }
        },
    }
}

} // verus!
