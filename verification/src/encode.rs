//! From pixels to a hash. The sums over the pixels are the encoder's, which
//! is called once the request has been found in order.

use crate::error::Error;
use crate::base83::all_symbols;
use crate::hash::{is_hash_for, lemma_hash_validates, valid_components, validated};
use crate::pixels::{rgb_len, rgba_len, Pixels};
use crate::trusted::{base64_decoding, decode_base64, encode_rgba, load_pixels, loaded_size};
use vstd::prelude::*;

verus! {

/// How many bytes of a buffer make up a pixel.
#[derive(Clone, Copy, Debug, PartialEq, Eq, Structural)]
pub enum Channels {
    /// Three: red, green, blue.
    Rgb,
    /// Four: red, green, blue, alpha.
    Rgba,
}

/// Whether a request to encode is in order: the channels of its buffer where
/// it is, and the error where it is not. The component counts are looked at
/// first, then the buffer's length, which is to be three or four bytes for
/// each pixel, then whether there is an image at all, then the size of the
/// image.
pub open spec fn encode_verdict(x: int, y: int, width: int, height: int, len: int) -> Result<
    Channels,
    Error,
> {
    if !valid_components(x, y) {
        Err(Error::InvalidComponentCount)
    } else if len != rgba_len(width, height) && len != rgb_len(width, height) {
        Err(Error::BufferSizeMismatch)
    } else if width == 0 || height == 0 {
        Err(Error::EmptyImage)
    } else if rgba_len(width, height) > u32::MAX {
        Err(Error::ImageTooLarge)
    } else if len == rgba_len(width, height) {
        Ok(Channels::Rgba)
    } else {
        Ok(Channels::Rgb)
    }
}

/// Whether a request to encode a buffer of four bytes to the pixel is in
/// order, and the error where it is not: as `encode_verdict`, but that three
/// bytes to the pixel are a buffer of the wrong length.
pub open spec fn rgba_verdict(x: int, y: int, width: int, height: int, len: int) -> Result<
    (),
    Error,
> {
    if !valid_components(x, y) {
        Err(Error::InvalidComponentCount)
    } else if len != rgba_len(width, height) {
        Err(Error::BufferSizeMismatch)
    } else if width == 0 || height == 0 {
        Err(Error::EmptyImage)
    } else if rgba_len(width, height) > u32::MAX {
        Err(Error::ImageTooLarge)
    } else {
        Ok(())
    }
}

/// Decides whether a request to encode is in order, from the length of its
/// buffer alone.
pub fn check_request(x: u32, y: u32, width: u32, height: u32, len: usize) -> (r: Result<
    Channels,
    Error,
>)
    ensures
        r == encode_verdict(x as int, y as int, width as int, height as int, len as int),
{
    if x < 1 || x > 9 || y < 1 || y > 9 {
        return Err(Error::InvalidComponentCount);
    }
    assert(0 <= width * height <= 0xffff_ffff * 0xffff_ffff && (width * height == 0 <==> width == 0
        || height == 0)) by (nonlinear_arith)
        requires
            0 <= width <= 0xffff_ffff,
            0 <= height <= 0xffff_ffff,
    ;
    let area: u128 = (width as u128) * (height as u128);
    assert(4 * width * height == 4 * area && 3 * width * height == 3 * area) by (nonlinear_arith)
        requires
            area == width * height,
    ;
    let len: u128 = len as u128;
    if len != 4 * area && len != 3 * area {
        Err(Error::BufferSizeMismatch)
    } else if width == 0 || height == 0 {
        Err(Error::EmptyImage)
    } else if 4 * area > 0xffff_ffff {
        Err(Error::ImageTooLarge)
    } else if len == 4 * area {
        Ok(Channels::Rgba)
    } else {
        Ok(Channels::Rgb)
    }
}

/// Decides whether a request to encode a buffer of four bytes to the pixel
/// is in order, from the length of the buffer alone.
pub fn check_rgba_request(x: u32, y: u32, width: u32, height: u32, len: usize) -> (r: Result<
    (),
    Error,
>)
    ensures
        r == rgba_verdict(x as int, y as int, width as int, height as int, len as int),
{
    if x < 1 || x > 9 || y < 1 || y > 9 {
        return Err(Error::InvalidComponentCount);
    }
    assert(0 <= width * height <= 0xffff_ffff * 0xffff_ffff) by (nonlinear_arith)
        requires
            0 <= width <= 0xffff_ffff,
            0 <= height <= 0xffff_ffff,
    ;
    let area: u128 = (width as u128) * (height as u128);
    assert(4 * width * height == 4 * area) by (nonlinear_arith)
        requires
            area == width * height,
    ;
    if len as u128 != 4 * area {
        Err(Error::BufferSizeMismatch)
    } else if width == 0 || height == 0 {
        Err(Error::EmptyImage)
    } else if 4 * area > 0xffff_ffff {
        Err(Error::ImageTooLarge)
    } else {
        Ok(())
    }
}

/// The bytes of an image of three bytes to the pixel, with an alpha of 255
/// put behind each pixel.
pub open spec fn with_alpha(rgb: Seq<u8>) -> Seq<u8> {
    Seq::new(
        (rgb.len() / 3 * 4) as nat,
        |i: int|
            if i % 4 == 3 {
                255u8
            } else {
                rgb[i / 4 * 3 + i % 4]
            },
    )
}

/// Gives each pixel of an image of three bytes to the pixel a fourth byte.
pub fn rgb_to_rgba(rgb: &[u8]) -> (rgba: Vec<u8>)
    requires
        rgb@.len() % 3 == 0,
        rgb@.len() / 3 * 4 <= usize::MAX,
    ensures
        rgba@ == with_alpha(rgb@),
{
    let len = rgb.len();
    let count = len / 3;
    let mut rgba: Vec<u8> = Vec::with_capacity(count * 4);
    let mut p: usize = 0;
    while p < count
        invariant
            p <= count,
            len == rgb@.len(),
            len == 3 * count,
            rgba@.len() == 4 * p,
            forall|i: int| 0 <= i < 4 * p ==> #[trigger] rgba@[i] == with_alpha(rgb@)[i],
        decreases count - p,
    {
        rgba.push(rgb[3 * p]);
        rgba.push(rgb[3 * p + 1]);
        rgba.push(rgb[3 * p + 2]);
        rgba.push(255);
        p = p + 1;
    }
    rgba
}

/// Encodes an image of `width` by `height` pixels, three or four bytes to the
/// pixel, as a hash of `x` by `y` components. The encoder is handed the
/// buffer as it is where it has four bytes to the pixel, and else what
/// `rgb_to_rgba` makes of it: it does not look at the alpha channel. A hash
/// is owed wherever `encode_verdict` finds the request in order; what is
/// stated of it is its shape, which does not depend on the image.
pub fn encode(x: u32, y: u32, width: u32, height: u32, pixels: &[u8]) -> (r: Result<String, Error>)
    ensures
        r matches Ok(hash) ==> hash@.len() == 6 + 2 * (x * y - 1),
        r matches Ok(hash) ==> all_symbols(hash@),
        r matches Ok(hash) ==> validated(hash@) == Ok::<(u32, u32), Error>((x, y)),
        match r {
            Ok(hash) => encode_verdict(
                x as int,
                y as int,
                width as int,
                height as int,
                pixels@.len() as int,
            ) is Ok && is_hash_for(hash@, x as int, y as int),
            Err(e) => encode_verdict(
                x as int,
                y as int,
                width as int,
                height as int,
                pixels@.len() as int,
            ) == Err::<Channels, Error>(e),
        },
{
    let hash = match check_request(x, y, width, height, pixels.len()) {
        Err(e) => {
            return Err(e);
        },
        Ok(Channels::Rgba) => encode_rgba(x, y, width, height, pixels),
        Ok(Channels::Rgb) => {
            let ghost area = width * height;
            assert(3 * width * height == 3 * area && 4 * width * height == 4 * area)
                by (nonlinear_arith)
                requires
                    area == width * height,
            ;
            let rgba = rgb_to_rgba(pixels);
            encode_rgba(x, y, width, height, rgba.as_slice())
        },
    };
    proof {
        lemma_hash_validates(hash@, x as int, y as int);
    }
    Ok(hash)
}

/// The size at which an image is encoded: the one asked for where both a
/// width and a height are given, and else the image's own.
pub open spec fn chosen_size(image: Pixels, width: Option<u32>, height: Option<u32>) -> (u32, u32) {
    match (width, height) {
        (Some(w), Some(h)) => (w, h),
        _ => (image.width, image.height),
    }
}

/// The size at which an image is encoded.
pub fn choose_size(image: &Pixels, width: Option<u32>, height: Option<u32>) -> (size: (u32, u32))
    ensures
        size == chosen_size(*image, width, height),
{
    match (width, height) {
        (Some(w), Some(h)) => (w, h),
        _ => (image.width, image.height),
    }
}

/// What encoding `image` at the chosen size comes to, but for the hash
/// itself: `Ok` where a hash is owed, and else the error. The bytes of an
/// image are four to the pixel.
pub open spec fn image_verdict(
    image: Pixels,
    width: Option<u32>,
    height: Option<u32>,
    x: u32,
    y: u32,
) -> Result<(), Error> {
    rgba_verdict(
        x as int,
        y as int,
        chosen_size(image, width, height).0 as int,
        chosen_size(image, width, height).1 as int,
        image.data@.len() as int,
    )
}

/// Whether `r` is what is owed for an image: a hash of the shape of `x` by
/// `y` components where `verdict` is `Ok`, and else the error of `verdict`.
pub open spec fn answers(verdict: Result<(), Error>, x: u32, y: u32, r: Result<String, Error>) -> bool {
    match r {
        Ok(hash) => verdict is Ok && is_hash_for(hash@, x as int, y as int),
        Err(e) => verdict == Err::<(), Error>(e),
    }
}

/// Whether `r` is what is owed for the bytes of an image file. Where the
/// loader refuses the bytes, its error; where it gives an image, what
/// `img_to_blurhash` owes for an image of that width and height, whose bytes
/// are four to the pixel, at the asked size.
pub open spec fn bytes_verdict(
    raw: Seq<u8>,
    width: Option<u32>,
    height: Option<u32>,
    x: u32,
    y: u32,
    r: Result<String, Error>,
) -> bool {
    match loaded_size(raw) {
        Err(e) => r == Err::<String, Error>(e),
        Ok((w, h)) => {
            let size = match (width, height) {
                (Some(asked_w), Some(asked_h)) => (asked_w, asked_h),
                _ => (w, h),
            };
            answers(
                rgba_verdict(x as int, y as int, size.0 as int, size.1 as int, 4 * w * h),
                x,
                y,
                r,
            )
        },
    }
}

/// When a hash is owed for an image: with both counts from 1 to 9, at the
/// image's own size or at an asked one that is the same, a hash is owed for
/// every image of at least one pixel whose bytes are four to the pixel and
/// can be addressed in 32 bits.
pub proof fn lemma_image_hash_owed(
    image: Pixels,
    width: Option<u32>,
    height: Option<u32>,
    x: u32,
    y: u32,
)
    requires
        valid_components(x as int, y as int),
        image.width > 0,
        image.height > 0,
        image.data@.len() == rgba_len(image.width as int, image.height as int),
        rgba_len(image.width as int, image.height as int) <= u32::MAX,
        chosen_size(image, width, height) == (image.width, image.height),
    ensures
        image_verdict(image, width, height, x, y) is Ok,
{
}

/// Encodes an image as a hash of `x` by `y` components. A width and a height,
/// where both are given, take the place of the image's own: the image's bytes
/// are then read as an image of that size, and have to be four for each of
/// its pixels. Stated are when a hash is owed, each error, and the shape of
/// the hash; how the hash depends on the image's bytes is the encoder's and
/// is not stated.
pub fn img_to_blurhash(
    image: Pixels,
    width: Option<u32>,
    height: Option<u32>,
    x_components: u32,
    y_components: u32,
) -> (r: Result<String, Error>)
    ensures
        answers(
            image_verdict(image, width, height, x_components, y_components),
            x_components,
            y_components,
            r,
        ),
        r matches Ok(hash) ==> hash@.len() == 6 + 2 * (x_components * y_components - 1),
        r matches Ok(hash) ==> all_symbols(hash@),
        r matches Ok(hash) ==> validated(hash@) == Ok::<(u32, u32), Error>(
            (x_components, y_components),
        ),
        valid_components(x_components as int, y_components as int) && image.width > 0
            && image.height > 0 && chosen_size(image, width, height) == (image.width, image.height)
            && image.data@.len() == rgba_len(image.width as int, image.height as int) && rgba_len(
            image.width as int,
            image.height as int,
        ) <= u32::MAX ==> r is Ok,
{
    let (w, h) = choose_size(&image, width, height);
    match check_rgba_request(x_components, y_components, w, h, image.data.len()) {
        Err(e) => Err(e),
        Ok(()) => {
            let hash = encode_rgba(x_components, y_components, w, h, image.data.as_slice());
            proof {
                lemma_hash_validates(hash@, x_components as int, y_components as int);
            }
            Ok(hash)
        },
    }
}

/// Encodes the image that the bytes of an image file hold. Whether the bytes
/// are an image, and of which size, is the loader's to say: its error is
/// handed on, and an image that it gives goes the way of `img_to_blurhash`,
/// with the asked width and height.
pub fn raw_to_blurhash(
    raw: &[u8],
    width: Option<u32>,
    height: Option<u32>,
    x_components: u32,
    y_components: u32,
) -> (r: Result<String, Error>)
    ensures
        bytes_verdict(raw@, width, height, x_components, y_components, r),
        r matches Ok(hash) ==> hash@.len() == 6 + 2 * (x_components * y_components - 1),
        r matches Ok(hash) ==> all_symbols(hash@),
        r matches Ok(hash) ==> validated(hash@) == Ok::<(u32, u32), Error>(
            (x_components, y_components),
        ),
{
    match load_pixels(raw) {
        Err(e) => Err(e),
        Ok(image) => img_to_blurhash(image, width, height, x_components, y_components),
    }
}

/// Encodes the image that a base64 text holds the file of. A text that is not
/// base64 is refused as such; the bytes of one that is go the way of
/// `raw_to_blurhash`.
pub fn base64_to_blurhash(
    base64: &str,
    width: Option<u32>,
    height: Option<u32>,
    x_components: u32,
    y_components: u32,
) -> (r: Result<String, Error>)
    ensures
        match base64_decoding(base64@) {
            None => r == Err::<String, Error>(Error::InvalidBase64),
            Some(bytes) => bytes_verdict(bytes, width, height, x_components, y_components, r),
        },
        r matches Ok(hash) ==> hash@.len() == 6 + 2 * (x_components * y_components - 1),
        r matches Ok(hash) ==> all_symbols(hash@),
        r matches Ok(hash) ==> validated(hash@) == Ok::<(u32, u32), Error>(
            (x_components, y_components),
        ),
{
    match decode_base64(base64) {
        Err(_) => Err(Error::InvalidBase64),
        Ok(bytes) => raw_to_blurhash(bytes.as_slice(), width, height, x_components, y_components),
    }
}

} // verus!
