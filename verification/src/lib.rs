//! BlurHash: an image as a short string, and the rules of that string.
//!
//! - `base83`: the 83 symbols, and numbers written with them.
//! - `hash`: the layout of a hash, and when a string is taken for one.
//! - `fields`: the numbers that a hash holds, read out of it and written back.
//! - `encode`: from pixels, an image file or base64 text to a hash.
//! - `decode`: what is settled before and after a hash is decoded.
//! - `text`: the bytes of an image as text.
//! - `choice`: which input is read and which output is written.
//! - `pixels`, `error`: an image in memory, and what can go wrong.
//! - `trusted`: the calls into other crates, each with what is claimed of it.
//!
//! The sums over the pixels, and the colours of a decoded image, are computed
//! in floating point by the `blurhash` crate. What this library proves is the
//! part that is made of whole numbers: which requests are in order, what a
//! hash looks like, and that reading a hash undoes writing it.

pub mod base83;
pub mod choice;
pub mod decode;
pub mod encode;
pub mod error;
pub mod fields;
pub mod hash;
pub mod pixels;
pub mod text;
pub mod trusted;
