//! Which input is read and which output is written, where a command names
//! several of them or none.

use vstd::prelude::*;

verus! {

/// Where the image to encode comes from.
#[derive(Clone, Copy, Debug, PartialEq, Eq, Structural)]
pub enum EncodeInput {
    /// An image file.
    File,
    /// The bytes of an image file on standard input.
    Stdin,
    /// The bytes of an image file as base64 text.
    Base64,
    /// No input was named.
    Missing,
}

/// Where the hash to decode comes from.
#[derive(Clone, Copy, Debug, PartialEq, Eq, Structural)]
pub enum DecodeInput {
    /// A file that holds the hash.
    File,
    /// The hash on standard input.
    Stdin,
    /// No input was named.
    Missing,
}

/// Where a result goes.
#[derive(Clone, Copy, Debug, PartialEq, Eq, Structural)]
pub enum Output {
    /// A file.
    File,
    /// Standard output.
    Stdout,
    /// No output was named.
    Missing,
}

/// The input of an encoding: a file goes before standard input, and standard
/// input before base64 text.
pub fn encode_input(file: bool, stdin: bool, base64: bool) -> (r: EncodeInput)
    ensures
        r == if file {
            EncodeInput::File
        } else if stdin {
            EncodeInput::Stdin
        } else if base64 {
            EncodeInput::Base64
        } else {
            EncodeInput::Missing
        },
{
    if file {
        EncodeInput::File
    } else if stdin {
        EncodeInput::Stdin
    } else if base64 {
        EncodeInput::Base64
    } else {
        EncodeInput::Missing
    }
}

/// The input of a decoding: a file goes before standard input.
pub fn decode_input(file: bool, stdin: bool) -> (r: DecodeInput)
    ensures
        r == if file {
            DecodeInput::File
        } else if stdin {
            DecodeInput::Stdin
        } else {
            DecodeInput::Missing
        },
{
    if file {
        DecodeInput::File
    } else if stdin {
        DecodeInput::Stdin
    } else {
        DecodeInput::Missing
    }
}

/// The output of an encoding: a file where one is named, and else standard
/// output.
pub fn encode_output(file: bool) -> (r: Output)
    ensures
        r == if file {
            Output::File
        } else {
            Output::Stdout
        },
{
    if file {
        Output::File
    } else {
        Output::Stdout
    }
}

/// The output of a decoding: a file goes before standard output, which has
/// to be asked for.
pub fn decode_output(file: bool, stdout: bool) -> (r: Output)
    ensures
        r == if file {
            Output::File
        } else if stdout {
            Output::Stdout
        } else {
            Output::Missing
        },
{
    if file {
        Output::File
    } else if stdout {
        Output::Stdout
    } else {
        Output::Missing
    }
}

} // verus!
