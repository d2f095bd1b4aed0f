//! Bytes as text: each byte as a decimal number, one behind the other with
//! nothing between them.

use crate::trusted::push_char;
use vstd::prelude::*;

verus! {

/// The character of a decimal digit.
pub open spec fn decimal_digit(d: u8) -> char
    recommends
        d <= 9,
{
    ((48 + d) as u8) as char
}

/// A byte as a decimal number, without leading zeros.
pub open spec fn decimal(b: u8) -> Seq<char> {
    if b < 10 {
        seq![decimal_digit(b)]
    } else if b < 100 {
        seq![decimal_digit(b / 10), decimal_digit(b % 10)]
    } else {
        seq![decimal_digit(b / 100), decimal_digit(b / 10 % 10), decimal_digit(b % 10)]
    }
}

/// The decimal numbers of all bytes, one behind the other.
pub open spec fn decimals(bytes: Seq<u8>) -> Seq<char>
    decreases bytes.len(),
{
    if bytes.len() == 0 {
        Seq::empty()
    } else {
        decimals(bytes.drop_last()) + decimal(bytes.last())
    }
}

/// Adds the decimal number of `b` to a text.
fn push_decimal(text: &mut String, b: u8)
    ensures
        final(text)@ == old(text)@ + decimal(b),
{
    if b >= 100 {
        push_char(text, (48u8 + b / 100) as char);
    }
    if b >= 10 {
        push_char(text, (48u8 + b / 10 % 10) as char);
    }
    push_char(text, (48u8 + b % 10) as char);
}

/// The bytes of an image as text: the decimal number of each byte, with
/// nothing between them.
pub fn image_text(bytes: &[u8]) -> (text: String)
    ensures
        text@ == decimals(bytes@),
{
    let mut text = String::new();
    let mut i: usize = 0;
    while i < bytes.len()
        invariant
            i <= bytes@.len(),
            text@ == decimals(bytes@.subrange(0, i as int)),
        decreases bytes@.len() - i,
    {
        push_decimal(&mut text, bytes[i]);
        proof {
            assert(bytes@.subrange(0, i + 1).drop_last() =~= bytes@.subrange(0, i as int));
        }
        i = i + 1;
    }
    proof {
        assert(bytes@.subrange(0, i as int) =~= bytes@);
    }
    text
}

} // verus!
