//! The layout of a hash, and the rules by which a string is taken for one.
//!
//! A hash of `x` by `y` components is one character for the two counts, one
//! for the largest AC magnitude, four for the DC term and two for each of the
//! `x * y - 1` AC terms.

use crate::base83::{
    all_symbols, digit, digit_of, is_symbol, lemma_digit_of_symbol, symbol, value_of,
};
use crate::error::Error;
use vstd::prelude::*;

verus! {

/// The digit that announces `x` by `y` components.
pub open spec fn size_flag(x: int, y: int) -> int {
    (x - 1) + (y - 1) * 9
}

/// The number of components along x that the digit `flag` announces.
pub open spec fn flag_x(flag: int) -> int {
    flag % 9 + 1
}

/// The number of components along y that the digit `flag` announces.
pub open spec fn flag_y(flag: int) -> int {
    flag / 9 + 1
}

/// The length of a hash of `x` by `y` components.
pub open spec fn hash_length(x: int, y: int) -> int {
    6 + 2 * (x * y - 1)
}

/// Whether both counts are between 1 and 9.
pub open spec fn valid_components(x: int, y: int) -> bool {
    1 <= x <= 9 && 1 <= y <= 9
}

/// The largest number that the two characters of an AC term write: three
/// levels of at most 18, in base 19.
pub open spec fn max_ac_value() -> int {
    6858
}

/// The two characters of the `k`-th term, `k` counted from the DC term as 0.
pub open spec fn ac_chars(hash: Seq<char>, k: int) -> Seq<char> {
    hash.subrange(4 + 2 * k, 6 + 2 * k)
}

/// What a hash of `x` by `y` components looks like, whatever the image was:
/// its length, its alphabet, its first character, its second one where the
/// image has no AC term, and the range of each AC term.
pub open spec fn is_hash_for(hash: Seq<char>, x: int, y: int) -> bool {
    &&& hash.len() == hash_length(x, y)
    &&& all_symbols(hash)
    &&& hash[0] == symbol(size_flag(x, y))
    &&& x * y == 1 ==> hash[1] == symbol(0)
    &&& forall|k: int| 1 <= k < x * y ==> value_of(#[trigger] ac_chars(hash, k)) <= max_ac_value()
}

/// The component counts that a string announces, by its length and its first
/// character alone. The length is looked at first, then the first character,
/// then whether the two agree.
pub open spec fn components_of(hash: Seq<char>) -> Result<(u32, u32), Error> {
    if hash.len() < 6 || (hash.len() - 6) % 2 != 0 {
        Err(Error::MalformedLength)
    } else if !is_symbol(hash[0]) {
        Err(Error::InvalidCharacter)
    } else {
        let x = flag_x(digit(hash[0]));
        let y = flag_y(digit(hash[0]));
        if (hash.len() - 6) / 2 + 1 != x * y {
            Err(Error::SizeMismatch)
        } else {
            Ok((x as u32, y as u32))
        }
    }
}

/// The verdict on a string: its component counts where it can be decoded, and
/// else the first rule that it breaks. After the rules of `components_of`,
/// every character has to be a symbol.
pub open spec fn validated(hash: Seq<char>) -> Result<(u32, u32), Error> {
    match components_of(hash) {
        Err(e) => Err(e),
        Ok(c) => if all_symbols(hash) {
            Ok(c)
        } else {
            Err(Error::InvalidCharacter)
        },
    }
}

/// Reads the component counts off a string's first character and holds its
/// length against them. The first digit may be 81 or 82, which no encoder
/// writes: the count along y is then 10.
pub fn components(hash: &str) -> (r: Result<(u32, u32), Error>)
    ensures
        r == components_of(hash@),
        r matches Ok((x, y)) ==> 1 <= x <= 9 && 1 <= y <= 10 && hash@.len() == hash_length(
            x as int,
            y as int,
        ),
{
    let n = hash.unicode_len();
    if n < 6 || (n - 6) % 2 != 0 {
        return Err(Error::MalformedLength);
    }
    match digit_of(hash.get_char(0)) {
        None => Err(Error::InvalidCharacter),
        Some(flag) => {
            let x: usize = (flag % 9 + 1) as usize;
            let y: usize = (flag / 9 + 1) as usize;
            assert(x * y <= 90) by (nonlinear_arith)
                requires
                    x <= 9,
                    y <= 10,
            ;
            if (n - 6) / 2 + 1 != x * y {
                Err(Error::SizeMismatch)
            } else {
                Ok((x as u32, y as u32))
            }
        },
    }
}

/// Decides whether a string can be decoded, and gives its component counts.
pub fn validate(hash: &str) -> (r: Result<(u32, u32), Error>)
    ensures
        r == validated(hash@),
{
    let (x, y) = match components(hash) {
        Err(e) => {
            return Err(e);
        },
        Ok(c) => c,
    };
    let n = hash.unicode_len();
    let mut i: usize = 0;
    while i < n
        invariant
            i <= n,
            n == hash@.len(),
            components_of(hash@) == Ok::<(u32, u32), Error>((x, y)),
            forall|j: int| 0 <= j < i ==> is_symbol(#[trigger] hash@[j]),
        decreases n - i,
    {
        if digit_of(hash.get_char(i)).is_none() {
            return Err(Error::InvalidCharacter);
        }
        i = i + 1;
    }
    Ok((x, y))
}

/// The counts that a size flag announces are the counts that it was made
/// of: for all counts from 1 to 9, the flag is a digit of at most 80, and
/// reading it gives both counts back.
pub proof fn lemma_size_flag_inverts(x: int, y: int)
    requires
        valid_components(x, y),
    ensures
        0 <= size_flag(x, y) <= 80,
        flag_x(size_flag(x, y)) == x,
        flag_y(size_flag(x, y)) == y,
{
}

/// The length of a hash tells the number of its components, and the other
/// way round; it is even, at least 6 and at most 166.
pub proof fn lemma_hash_length(x: int, y: int)
    requires
        valid_components(x, y),
    ensures
        6 <= hash_length(x, y) <= 166,
        hash_length(x, y) == 4 + 2 * x * y,
        (hash_length(x, y) - 6) % 2 == 0,
        (hash_length(x, y) - 6) / 2 + 1 == x * y,
{
    assert(1 <= x * y <= 81) by (nonlinear_arith)
        requires
            1 <= x <= 9,
            1 <= y <= 9,
    ;
    assert(2 * (x * y - 1) == 2 * x * y - 2) by (nonlinear_arith);
}

/// A string that has the shape of a hash of `x` by `y` components is taken
/// for one, and the counts that are read off its first character are `x` and
/// `y`.
pub proof fn lemma_hash_validates(hash: Seq<char>, x: int, y: int)
    requires
        valid_components(x, y),
        is_hash_for(hash, x, y),
    ensures
        components_of(hash) == Ok::<(u32, u32), Error>((x as u32, y as u32)),
        validated(hash) == Ok::<(u32, u32), Error>((x as u32, y as u32)),
{
    lemma_size_flag_inverts(x, y);
    lemma_hash_length(x, y);
    lemma_digit_of_symbol(size_flag(x, y));
}

/// The first character of a hash of `x` by `y` components is the symbol of
/// the digit `(x - 1) + (y - 1) * 9`, and that digit reads back as `x` and
/// `y`: for all counts from 1 to 9, and whatever the image was.
pub proof fn lemma_first_character_reads_back(hash: Seq<char>, x: int, y: int)
    requires
        valid_components(x, y),
        is_hash_for(hash, x, y),
    ensures
        is_symbol(hash[0]),
        digit(hash[0]) == (x - 1) + (y - 1) * 9,
        digit(hash[0]) % 9 + 1 == x,
        digit(hash[0]) / 9 + 1 == y,
{
    lemma_size_flag_inverts(x, y);
    lemma_digit_of_symbol(size_flag(x, y));
}

/// A hash of `x` by `y` components has `6 + 2 * (x * y - 1)` characters, each
/// of them one of the 83 symbols: for all counts from 1 to 9, and whatever
/// the image was.
pub proof fn lemma_length_and_alphabet(hash: Seq<char>, x: int, y: int)
    requires
        valid_components(x, y),
        is_hash_for(hash, x, y),
    ensures
        hash.len() == 6 + 2 * (x * y - 1),
        forall|i: int| 0 <= i < hash.len() ==> is_symbol(#[trigger] hash[i]),
{
}

/// A string that holds a character from outside the alphabet, at whatever
/// place, is refused.
pub proof fn lemma_foreign_character_refused(hash: Seq<char>, i: int)
    requires
        0 <= i < hash.len(),
        !is_symbol(hash[i]),
    ensures
        validated(hash) is Err,
{
}

/// A string of fewer than six characters is refused for its length, whatever
/// it holds.
pub proof fn lemma_short_string_refused(hash: Seq<char>)
    requires
        hash.len() < 6,
    ensures
        validated(hash) == Err::<(u32, u32), Error>(Error::MalformedLength),
{
}

} // verus!
