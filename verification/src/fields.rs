//! The numbers that a hash holds, read out of it and written back: the two
//! component counts, the largest AC magnitude as a digit, the DC term as one
//! number and each AC term as one number.

use crate::base83::{
    all_symbols, decode, digit, encode, lemma_digit_of_symbol, lemma_numeral_of_value,
    lemma_numeral_shape, lemma_symbol_of_digit, lemma_value_bound, lemma_value_of_numeral,
    numeral, symbol, value_of,
};
use crate::error::Error;
use crate::hash::{
    ac_chars, hash_length, is_hash_for, lemma_hash_length, lemma_size_flag_inverts, size_flag,
    valid_components, validate, validated,
};
use vstd::arithmetic::div_mod::{
    lemma_div_denominator, lemma_fundamental_div_mod, lemma_fundamental_div_mod_converse,
};
use vstd::arithmetic::power::pow;
use vstd::prelude::*;

verus! {

/// The numbers of one hash.
#[derive(Debug, PartialEq, Eq)]
pub struct Fields {
    /// The number of components along x.
    pub x_components: u32,
    /// The number of components along y.
    pub y_components: u32,
    /// The digit that stands for the largest AC magnitude.
    pub maximum: u32,
    /// The number that the four characters of the DC term write.
    pub dc: u32,
    /// The number that the two characters of each AC term write, row by row.
    pub ac: Vec<u32>,
}

/// The four characters of the DC term.
pub open spec fn dc_chars(hash: Seq<char>) -> Seq<char> {
    hash.subrange(2, 6)
}

/// The characters of a row of AC terms, two for each.
pub open spec fn ac_text(ac: Seq<u32>) -> Seq<char>
    decreases ac.len(),
{
    if ac.len() == 0 {
        Seq::empty()
    } else {
        ac_text(ac.drop_last()) + numeral(ac.last() as nat, 2)
    }
}

impl Fields {
    /// Whether the numbers can be written as a hash: counts that one digit
    /// can announce, a digit for the maximum, a DC term of four digits, and
    /// an AC term of two digits for each component but the first.
    pub open spec fn wf(&self) -> bool {
        &&& 1 <= self.x_components <= 9
        &&& 1 <= self.y_components
        &&& size_flag(self.x_components as int, self.y_components as int) < 83
        &&& self.maximum < 83
        &&& self.dc < 47458321
        &&& self.ac@.len() == self.x_components * self.y_components - 1
        &&& forall|k: int| 0 <= k < self.ac@.len() ==> #[trigger] self.ac@[k] < 6889
    }

    /// The hash that writes the numbers.
    pub open spec fn text(&self) -> Seq<char> {
        numeral(size_flag(self.x_components as int, self.y_components as int) as nat, 1) + numeral(
            self.maximum as nat,
            1,
        ) + numeral(self.dc as nat, 4) + ac_text(self.ac@)
    }

    /// Whether the numbers are those that `hash` holds.
    pub open spec fn read_from(&self, hash: Seq<char>) -> bool {
        &&& hash.len() == hash_length(self.x_components as int, self.y_components as int)
        &&& digit(hash[0]) == size_flag(self.x_components as int, self.y_components as int)
        &&& digit(hash[1]) == self.maximum
        &&& value_of(dc_chars(hash)) == self.dc
        &&& self.ac@.len() == self.x_components * self.y_components - 1
        &&& forall|k: int|
            0 <= k < self.ac@.len() ==> value_of(#[trigger] ac_chars(hash, k + 1)) == self.ac@[k]
    }
}

/// The DC term of three channels: eight bits for each, red first.
pub open spec fn dc_of_channels(red: int, green: int, blue: int) -> int {
    red * 65536 + green * 256 + blue
}

/// The three channels of a DC term. Four characters can write more than 24
/// bits: what is above them counts as red.
pub open spec fn channels_of_dc(dc: int) -> (int, int, int) {
    (dc / 65536, dc / 256 % 256, dc % 256)
}

/// The AC term of three levels: a number in base 19, red first.
pub open spec fn ac_of_levels(red: int, green: int, blue: int) -> int {
    red * 361 + green * 19 + blue
}

/// The three levels of an AC term. Two characters can write more than three
/// levels of at most 18 come to: what is above them counts as red.
pub open spec fn levels_of_ac(ac: int) -> (int, int, int) {
    (ac / 361, ac / 19 % 19, ac % 19)
}

/// Packs three channels as a DC term.
pub fn pack_dc(red: u8, green: u8, blue: u8) -> (dc: u32)
    ensures
        dc == dc_of_channels(red as int, green as int, blue as int),
        dc < 16777216,
        channels_of_dc(dc as int) == (red as int, green as int, blue as int),
{
    proof {
        let dc = dc_of_channels(red as int, green as int, blue as int);
        lemma_fundamental_div_mod_converse(dc, 256, red * 256 + green, blue as int);
        lemma_fundamental_div_mod_converse(red * 256 + green, 256, red as int, green as int);
        lemma_div_denominator(dc, 256, 256);
    }
    red as u32 * 65536 + green as u32 * 256 + blue as u32
}

/// Takes a DC term apart.
pub fn unpack_dc(dc: u32) -> (channels: (u32, u32, u32))
    ensures
        channels_of_dc(dc as int) == (channels.0 as int, channels.1 as int, channels.2 as int),
        dc_of_channels(channels.0 as int, channels.1 as int, channels.2 as int) == dc,
        channels.1 < 256 && channels.2 < 256,
        dc < 16777216 ==> channels.0 < 256,
{
    proof {
        lemma_fundamental_div_mod(dc as int, 256);
        lemma_fundamental_div_mod(dc as int / 256, 256);
        lemma_div_denominator(dc as int, 256, 256);
    }
    (dc / 65536, dc / 256 % 256, dc % 256)
}

/// Packs three levels as an AC term.
pub fn pack_ac(red: u8, green: u8, blue: u8) -> (ac: u32)
    requires
        red <= 18,
        green <= 18,
        blue <= 18,
    ensures
        ac == ac_of_levels(red as int, green as int, blue as int),
        ac <= 6858,
        levels_of_ac(ac as int) == (red as int, green as int, blue as int),
{
    proof {
        let ac = ac_of_levels(red as int, green as int, blue as int);
        lemma_fundamental_div_mod_converse(ac, 19, red * 19 + green, blue as int);
        lemma_fundamental_div_mod_converse(red * 19 + green, 19, red as int, green as int);
        lemma_div_denominator(ac, 19, 19);
    }
    red as u32 * 361 + green as u32 * 19 + blue as u32
}

/// Takes an AC term apart.
pub fn unpack_ac(ac: u32) -> (levels: (u32, u32, u32))
    ensures
        levels_of_ac(ac as int) == (levels.0 as int, levels.1 as int, levels.2 as int),
        ac_of_levels(levels.0 as int, levels.1 as int, levels.2 as int) == ac,
        levels.1 <= 18 && levels.2 <= 18,
        ac <= 6858 ==> levels.0 <= 18,
{
    proof {
        lemma_fundamental_div_mod(ac as int, 19);
        lemma_fundamental_div_mod(ac as int / 19, 19);
        lemma_div_denominator(ac as int, 19, 19);
    }
    (ac / 361, ac / 19 % 19, ac % 19)
}

/// The powers of 83 that bound the fields of a hash.
pub proof fn lemma_powers()
    ensures
        pow(83, 1) == 83,
        pow(83, 2) == 6889,
        pow(83, 4) == 47458321,
{
    reveal_with_fuel(pow, 5);
}

/// The number written by characters `from` up to `to` of a string of symbols.
fn read_number(hash: &str, from: usize, to: usize) -> (v: u64)
    requires
        all_symbols(hash@),
        from <= to <= hash@.len(),
        to - from <= 10,
    ensures
        v == value_of(hash@.subrange(from as int, to as int)),
{
    let part = hash.substring_char(from, to);
    assert(all_symbols(part@));
    match decode(part) {
        Ok(v) => v,
        Err(_) => {
            assert(false);
            0
        },
    }
}

/// Reads the numbers out of a string, where `validate` takes it for a hash,
/// and gives the error of `validate` where it does not.
pub fn parse(hash: &str) -> (r: Result<Fields, Error>)
    ensures
        match r {
            Ok(fields) => validated(hash@) == Ok::<(u32, u32), Error>(
                (fields.x_components, fields.y_components),
            ) && fields.read_from(hash@) && fields.wf(),
            Err(e) => validated(hash@) == Err::<(u32, u32), Error>(e),
        },
{
    let (x, y) = match validate(hash) {
        Err(e) => {
            return Err(e);
        },
        Ok(c) => c,
    };
    assert(1 <= x * y <= 90) by (nonlinear_arith)
        requires
            1 <= x <= 9,
            1 <= y <= 10,
    ;
    proof {
        lemma_symbol_of_digit(hash@[0]);
        lemma_symbol_of_digit(hash@[1]);
        lemma_powers();
    }
    let maximum = read_number(hash, 1, 2);
    let dc = read_number(hash, 2, 6);
    proof {
        assert(value_of(hash@.subrange(1, 2)) == digit(hash@[1])) by {
            reveal_with_fuel(value_of, 2);
        }
        lemma_value_bound(dc_chars(hash@));
    }
    let count: usize = (x * y - 1) as usize;
    let mut ac: Vec<u32> = Vec::with_capacity(count);
    let mut k: usize = 0;
    while k < count
        invariant
            k <= count,
            count <= 89,
            hash@.len() == 6 + 2 * count,
            all_symbols(hash@),
            ac@.len() == k,
            forall|j: int| 0 <= j < k ==> #[trigger] ac@[j] < 6889,
            forall|j: int| 0 <= j < k ==> value_of(#[trigger] ac_chars(hash@, j + 1)) == ac@[j],
        decreases count - k,
    {
        let v = read_number(hash, 6 + 2 * k, 8 + 2 * k);
        proof {
            lemma_value_bound(ac_chars(hash@, k + 1));
            lemma_powers();
        }
        ac.push(v as u32);
        k = k + 1;
    }
    Ok(Fields { x_components: x, y_components: y, maximum: maximum as u32, dc: dc as u32, ac })
}

/// The characters of a row of AC terms are two for each term, all of them
/// symbols, and the `k`-th two write the `k`-th term.
pub proof fn lemma_ac_text(ac: Seq<u32>)
    requires
        forall|k: int| 0 <= k < ac.len() ==> #[trigger] ac[k] < 6889,
    ensures
        ac_text(ac).len() == 2 * ac.len(),
        all_symbols(ac_text(ac)),
        forall|k: int|
            0 <= k < ac.len() ==> #[trigger] ac_text(ac).subrange(2 * k, 2 * k + 2) == numeral(
                ac[k] as nat,
                2,
            ),
    decreases ac.len(),
{
    if ac.len() > 0 {
        let front = ac.drop_last();
        lemma_ac_text(front);
        lemma_numeral_shape(ac.last() as nat, 2);
        assert forall|k: int| 0 <= k < ac.len() implies #[trigger] ac_text(ac).subrange(
            2 * k,
            2 * k + 2,
        ) == numeral(ac[k] as nat, 2) by {
            if k < front.len() {
                assert(ac_text(ac).subrange(2 * k, 2 * k + 2) =~= ac_text(front).subrange(
                    2 * k,
                    2 * k + 2,
                ));
            }
        }
    }
}

/// Writing numbers as a hash and reading the hash gives the numbers back:
/// the text of well-formed fields is a string of symbols that `validate`
/// takes for a hash of their counts, and the fields are those that it holds.
pub proof fn lemma_text_reads_back(fields: Fields)
    requires
        fields.wf(),
    ensures
        all_symbols(fields.text()),
        validated(fields.text()) == Ok::<(u32, u32), Error>(
            (fields.x_components, fields.y_components),
        ),
        fields.read_from(fields.text()),
{
    let x = fields.x_components as int;
    let y = fields.y_components as int;
    let flag = size_flag(x, y);
    let text = fields.text();
    lemma_powers();
    lemma_ac_text(fields.ac@);
    lemma_numeral_shape(flag as nat, 1);
    lemma_numeral_shape(fields.maximum as nat, 1);
    lemma_numeral_shape(fields.dc as nat, 4);
    lemma_value_of_numeral(flag as nat, 1);
    lemma_value_of_numeral(fields.maximum as nat, 1);
    lemma_value_of_numeral(fields.dc as nat, 4);
    assert(text[0] == symbol(flag)) by {
        assert(numeral(flag as nat, 1)[0] == symbol(flag)) by {
            reveal_with_fuel(numeral, 2);
        }
    }
    assert(text[1] == symbol(fields.maximum as int)) by {
        assert(numeral(fields.maximum as nat, 1)[0] == symbol(fields.maximum as int)) by {
            reveal_with_fuel(numeral, 2);
        }
    }
    lemma_digit_of_symbol(flag);
    lemma_digit_of_symbol(fields.maximum as int);
    assert(dc_chars(text) =~= numeral(fields.dc as nat, 4));
    assert forall|k: int| 0 <= k < fields.ac@.len() implies value_of(
        #[trigger] ac_chars(text, k + 1),
    ) == fields.ac@[k] by {
        assert(ac_chars(text, k + 1) =~= ac_text(fields.ac@).subrange(2 * k, 2 * k + 2));
        lemma_value_of_numeral(fields.ac@[k] as nat, 2);
    }
}

/// Reading a hash and writing the numbers gives the hash back: a string of
/// symbols that holds the fields is their text.
pub proof fn lemma_read_writes_back(hash: Seq<char>, fields: Fields)
    requires
        all_symbols(hash),
        fields.read_from(hash),
        fields.wf(),
    ensures
        fields.text() == hash,
{
    let text = fields.text();
    lemma_text_reads_back(fields);
    assert forall|i: int| 0 <= i < hash.len() implies text[i] == hash[i] by {
        lemma_symbol_of_digit(hash[i]);
        lemma_symbol_of_digit(text[i]);
        if 2 <= i < 6 {
            lemma_numeral_of_value(dc_chars(hash));
            lemma_numeral_of_value(dc_chars(text));
            assert(dc_chars(text)[i - 2] == text[i]);
        } else if 6 <= i {
            let k = (i - 6) / 2;
            let a = ac_chars(hash, k + 1);
            let b = ac_chars(text, k + 1);
            lemma_numeral_of_value(a);
            lemma_numeral_of_value(b);
            assert(b[i - 6 - 2 * k] == text[i]);
        }
    }
}

/// What an encoder's hash holds: where a string has the shape of a hash of
/// `x` by `y` components, each AC term that is read from it is made of three
/// levels of at most 18, and with a single component the digit of the
/// maximum is 0.
pub proof fn lemma_fields_of_encoded(hash: Seq<char>, x: int, y: int, fields: Fields)
    requires
        valid_components(x, y),
        is_hash_for(hash, x, y),
        fields.wf(),
        fields.read_from(hash),
    ensures
        fields.x_components == x,
        fields.y_components == y,
        x * y == 1 ==> fields.maximum == 0,
        forall|k: int|
            0 <= k < fields.ac@.len() ==> {
                let levels = levels_of_ac(#[trigger] fields.ac@[k] as int);
                levels.0 <= 18 && levels.1 <= 18 && levels.2 <= 18
            },
{
    lemma_size_flag_inverts(x, y);
    lemma_hash_length(x, y);
    lemma_digit_of_symbol(size_flag(x, y));
    lemma_digit_of_symbol(0);
    assert forall|k: int| 0 <= k < fields.ac@.len() implies {
        let levels = levels_of_ac(#[trigger] fields.ac@[k] as int);
        levels.0 <= 18 && levels.1 <= 18 && levels.2 <= 18
    } by {
        assert(value_of(ac_chars(hash, k + 1)) <= 6858);
    }
}

/// Writes the numbers as a hash.
pub fn assemble(fields: &Fields) -> (hash: String)
    requires
        fields.wf(),
    ensures
        hash@ == fields.text(),
        all_symbols(hash@),
        validated(hash@) == Ok::<(u32, u32), Error>((fields.x_components, fields.y_components)),
        fields.read_from(hash@),
{
    proof {
        lemma_powers();
        lemma_text_reads_back(*fields);
    }
    let flag: u64 = ((fields.x_components - 1) + (fields.y_components - 1) * 9) as u64;
    let mut hash = encode(flag, 1);
    hash.append(encode(fields.maximum as u64, 1).as_str());
    hash.append(encode(fields.dc as u64, 4).as_str());
    let ghost head = hash@;
    let mut k: usize = 0;
    while k < fields.ac.len()
        invariant
            k <= fields.ac@.len(),
            forall|j: int| 0 <= j < fields.ac@.len() ==> #[trigger] fields.ac@[j] < 6889,
            pow(83, 2) == 6889,
            hash@ == head + ac_text(fields.ac@.subrange(0, k as int)),
        decreases fields.ac@.len() - k,
    {
        hash.append(encode(fields.ac[k] as u64, 2).as_str());
        proof {
            let next = fields.ac@.subrange(0, k + 1);
            assert(next.drop_last() =~= fields.ac@.subrange(0, k as int));
        }
        k = k + 1;
    }
    proof {
        assert(fields.ac@.subrange(0, k as int) =~= fields.ac@);
    }
    hash
}

} // verus!
