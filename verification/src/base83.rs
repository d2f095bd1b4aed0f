//! The positional numeral system of a hash: 83 printable symbols, each
//! standing for one digit.

use crate::error::Error;
use crate::trusted::push_char;
use vstd::arithmetic::power::{lemma_pow0, lemma_pow_positive, pow};
use vstd::prelude::*;

verus! {

/// The symbols in the order of their digit values, 0 to 82.
pub open spec fn alphabet() -> Seq<char> {
    seq![
        '0', '1', '2', '3', '4', '5', '6', '7', '8', '9',
        'A', 'B', 'C', 'D', 'E', 'F', 'G', 'H', 'I', 'J', 'K', 'L', 'M',
        'N', 'O', 'P', 'Q', 'R', 'S', 'T', 'U', 'V', 'W', 'X', 'Y', 'Z',
        'a', 'b', 'c', 'd', 'e', 'f', 'g', 'h', 'i', 'j', 'k', 'l', 'm',
        'n', 'o', 'p', 'q', 'r', 's', 't', 'u', 'v', 'w', 'x', 'y', 'z',
        '#', '$', '%', '*', '+', ',', '-', '.', ':', ';', '=', '?', '@',
        '[', ']', '^', '_', '{', '|', '}', '~',
    ]
}

/// The symbol that stands for the digit `d`.
pub open spec fn symbol(d: int) -> char
    recommends
        0 <= d < 83,
{
    alphabet()[d]
}

/// Whether `c` is one of the 83 symbols.
pub open spec fn is_symbol(c: char) -> bool {
    exists|d: int| 0 <= d < 83 && symbol(d) == c
}

/// The digit that `c` stands for; meaningful where `is_symbol(c)`.
pub open spec fn digit(c: char) -> int {
    choose|d: int| 0 <= d < 83 && symbol(d) == c
}

/// The symbol that stands for the digit `d`.
pub fn symbol_of(d: u8) -> (c: char)
    requires
        d < 83,
    ensures
        c == symbol(d as int),
{
    let table: [char; 83] = [
        '0', '1', '2', '3', '4', '5', '6', '7', '8', '9',
        'A', 'B', 'C', 'D', 'E', 'F', 'G', 'H', 'I', 'J', 'K', 'L', 'M',
        'N', 'O', 'P', 'Q', 'R', 'S', 'T', 'U', 'V', 'W', 'X', 'Y', 'Z',
        'a', 'b', 'c', 'd', 'e', 'f', 'g', 'h', 'i', 'j', 'k', 'l', 'm',
        'n', 'o', 'p', 'q', 'r', 's', 't', 'u', 'v', 'w', 'x', 'y', 'z',
        '#', '$', '%', '*', '+', ',', '-', '.', ':', ';', '=', '?', '@',
        '[', ']', '^', '_', '{', '|', '}', '~',
    ];
    table[d as usize]
}

/// Whether every character of `s` is a symbol.
pub open spec fn all_symbols(s: Seq<char>) -> bool {
    forall|i: int| 0 <= i < s.len() ==> is_symbol(#[trigger] s[i])
}

/// The number that `s` writes: its digits, the first one weighing most.
pub open spec fn value_of(s: Seq<char>) -> nat
    decreases s.len(),
{
    if s.len() == 0 {
        0
    } else {
        (value_of(s.drop_last()) * 83 + digit(s.last())) as nat
    }
}

/// `value` written with `count` digits, the first one weighing most.
pub open spec fn numeral(value: nat, count: nat) -> Seq<char>
    decreases count,
{
    if count == 0 {
        Seq::empty()
    } else {
        numeral(value / 83, (count - 1) as nat).push(symbol((value % 83) as int))
    }
}

/// The place of `c` in the alphabet by the ranges that the alphabet is made
/// of, or -1 where it has none.
spec fn rank(c: char) -> int {
    if '0' <= c && c <= '9' {
        c as int - '0' as int
    } else if 'A' <= c && c <= 'Z' {
        c as int - 'A' as int + 10
    } else if 'a' <= c && c <= 'z' {
        c as int - 'a' as int + 36
    } else if c == '#' {
        62
    } else if c == '$' {
        63
    } else if c == '%' {
        64
    } else if c == '*' {
        65
    } else if c == '+' {
        66
    } else if c == ',' {
        67
    } else if c == '-' {
        68
    } else if c == '.' {
        69
    } else if c == ':' {
        70
    } else if c == ';' {
        71
    } else if c == '=' {
        72
    } else if c == '?' {
        73
    } else if c == '@' {
        74
    } else if c == '[' {
        75
    } else if c == ']' {
        76
    } else if c == '^' {
        77
    } else if c == '_' {
        78
    } else if c == '{' {
        79
    } else if c == '|' {
        80
    } else if c == '}' {
        81
    } else if c == '~' {
        82
    } else {
        -1
    }
}

/// `rank` is the inverse of `symbol`.
proof fn lemma_rank_of_symbol(d: int)
    requires
        0 <= d < 83,
    ensures
        rank(symbol(d)) == d,
{
}

/// Where `rank` finds a place, the symbol at that place is the character.
proof fn lemma_symbol_of_rank(c: char)
    requires
        rank(c) >= 0,
    ensures
        0 <= rank(c) < 83,
        symbol(rank(c)) == c,
{
}

/// Each digit has a symbol of its own, and `digit` finds the digit of a symbol.
pub proof fn lemma_digit_of_symbol(d: int)
    requires
        0 <= d < 83,
    ensures
        is_symbol(symbol(d)),
        digit(symbol(d)) == d,
{
    let e = digit(symbol(d));
    lemma_rank_of_symbol(d);
    lemma_rank_of_symbol(e);
}

/// The digit of a symbol is below 83 and leads back to the symbol.
pub proof fn lemma_symbol_of_digit(c: char)
    requires
        is_symbol(c),
    ensures
        0 <= digit(c) < 83,
        symbol(digit(c)) == c,
{
}

/// The digit that `c` stands for, or `None` where `c` is no symbol.
pub fn digit_of(c: char) -> (r: Option<u8>)
    ensures
        r is Some <==> is_symbol(c),
        r matches Some(d) ==> d < 83 && d == digit(c) && symbol(d as int) == c,
{
    let r: Option<u8> = if '0' <= c && c <= '9' {
        Some((c as u32 - '0' as u32) as u8)
    } else if 'A' <= c && c <= 'Z' {
        Some((c as u32 - 'A' as u32 + 10) as u8)
    } else if 'a' <= c && c <= 'z' {
        Some((c as u32 - 'a' as u32 + 36) as u8)
    } else {
        match c {
            '#' => Some(62),
            '$' => Some(63),
            '%' => Some(64),
            '*' => Some(65),
            '+' => Some(66),
            ',' => Some(67),
            '-' => Some(68),
            '.' => Some(69),
            ':' => Some(70),
            ';' => Some(71),
            '=' => Some(72),
            '?' => Some(73),
            '@' => Some(74),
            '[' => Some(75),
            ']' => Some(76),
            '^' => Some(77),
            '_' => Some(78),
            '{' => Some(79),
            '|' => Some(80),
            '}' => Some(81),
            '~' => Some(82),
            _ => None,
        }
    };
    proof {
        match r {
            Some(d) => {
                lemma_symbol_of_rank(c);
                lemma_digit_of_symbol(d as int);
            },
            None => {
                if is_symbol(c) {
                    lemma_symbol_of_digit(c);
                    lemma_rank_of_symbol(digit(c));
                }
            },
        }
    }
    r
}

/// A numeral has as many characters as it was asked for, each one a symbol.
pub proof fn lemma_numeral_shape(value: nat, count: nat)
    ensures
        numeral(value, count).len() == count,
        all_symbols(numeral(value, count)),
    decreases count,
{
    if count > 0 {
        lemma_numeral_shape(value / 83, (count - 1) as nat);
        lemma_digit_of_symbol((value % 83) as int);
    }
}

/// A string of `n` symbols writes a number below the `n`-th power of 83.
pub proof fn lemma_value_bound(s: Seq<char>)
    requires
        all_symbols(s),
    ensures
        value_of(s) < pow(83, s.len()),
    decreases s.len(),
{
    reveal(pow);
    if s.len() > 0 {
        lemma_value_bound(s.drop_last());
        lemma_symbol_of_digit(s.last());
    }
}

/// Reading a numeral gives the number back, where the digits suffice for it.
pub proof fn lemma_value_of_numeral(value: nat, count: nat)
    requires
        value < pow(83, count),
    ensures
        value_of(numeral(value, count)) == value,
    decreases count,
{
    reveal(pow);
    if count > 0 {
        let rest = numeral(value / 83, (count - 1) as nat);
        assert(value / 83 < pow(83, (count - 1) as nat)) by {
            lemma_pow_positive(83, (count - 1) as nat);
        }
        lemma_value_of_numeral(value / 83, (count - 1) as nat);
        lemma_digit_of_symbol((value % 83) as int);
        assert(numeral(value, count).drop_last() =~= rest);
    }
}

/// Writing the number that a string of symbols reads as, with as many digits,
/// gives the string back.
pub proof fn lemma_numeral_of_value(s: Seq<char>)
    requires
        all_symbols(s),
    ensures
        numeral(value_of(s), s.len()) == s,
    decreases s.len(),
{
    if s.len() > 0 {
        lemma_numeral_of_value(s.drop_last());
        lemma_symbol_of_digit(s.last());
        let v = value_of(s.drop_last());
        let d = digit(s.last());
        assert((v * 83 + d) / 83 == v && (v * 83 + d) % 83 == d) by (nonlinear_arith)
            requires
                0 <= d < 83,
        ;
    }
}

/// Writes `value` with `digit_count` digits, the first one weighing most.
pub fn encode(value: u64, digit_count: usize) -> (s: String)
    requires
        value < pow(83, digit_count as nat),
    ensures
        s@ == numeral(value as nat, digit_count as nat),
        s@.len() == digit_count,
        all_symbols(s@),
        value_of(s@) == value,
{
    let ghost whole = numeral(value as nat, digit_count as nat);
    proof {
        lemma_numeral_shape(value as nat, digit_count as nat);
        lemma_value_of_numeral(value as nat, digit_count as nat);
    }
    let mut low_first: Vec<char> = Vec::new();
    let mut rest: u64 = value;
    let mut k: usize = 0;
    while k < digit_count
        invariant
            k <= digit_count,
            low_first@.len() == k,
            whole.len() == digit_count,
            whole.subrange(0, digit_count - k) == numeral(rest as nat, (digit_count - k) as nat),
            forall|j: int| 0 <= j < k ==> low_first@[j] == whole[digit_count - 1 - j],
        decreases digit_count - k,
    {
        let c = symbol_of((rest % 83) as u8);
        proof {
            lemma_numeral_shape((rest / 83) as nat, (digit_count - k - 1) as nat);
            assert(whole[digit_count - k - 1] == whole.subrange(0, digit_count - k)[digit_count
                - k - 1]);
        }
        low_first.push(c);
        rest = rest / 83;
        k = k + 1;
    }
    let mut s = String::new();
    let mut i: usize = 0;
    while i < digit_count
        invariant
            i <= digit_count,
            low_first@.len() == digit_count,
            whole.len() == digit_count,
            forall|j: int| 0 <= j < digit_count ==> low_first@[j] == whole[digit_count - 1 - j],
            s@ == whole.subrange(0, i as int),
        decreases digit_count - i,
    {
        push_char(&mut s, low_first[digit_count - 1 - i]);
        i = i + 1;
    }
    s
}

/// What reading `s` as a number comes to.
pub open spec fn decoded(s: Seq<char>) -> Result<nat, Error> {
    if all_symbols(s) {
        Ok(value_of(s))
    } else {
        Err(Error::InvalidCharacter)
    }
}

/// Reads `s` as a number: from the left, each symbol's digit is added to 83
/// times what came before. A character that is no symbol is an error. Ten
/// digits are what 64 bits hold.
pub fn decode(s: &str) -> (r: Result<u64, Error>)
    requires
        s@.len() <= 10,
    ensures
        match r {
            Ok(v) => decoded(s@) == Ok::<nat, Error>(v as nat),
            Err(e) => decoded(s@) == Err::<nat, Error>(e),
        },
{
    let n = s.unicode_len();
    let mut acc: u64 = 0;
    let mut i: usize = 0;
    proof {
        lemma_pow0(83);
    }
    while i < n
        invariant
            i <= n,
            n == s@.len(),
            n <= 10,
            all_symbols(s@.subrange(0, i as int)),
            acc == value_of(s@.subrange(0, i as int)),
            acc < pow(83, i as nat),
        decreases n - i,
    {
        let c = s.get_char(i);
        match digit_of(c) {
            None => {
                return Err(Error::InvalidCharacter);
            },
            Some(d) => {
                proof {
                    let next = s@.subrange(0, i + 1);
                    assert(next.drop_last() =~= s@.subrange(0, i as int));
                    assert(all_symbols(next));
                    lemma_value_bound(next);
                    lemma_pow_tenth(i + 1);
                }
                acc = acc * 83 + d as u64;
            },
        }
        i = i + 1;
    }
    proof {
        assert(s@.subrange(0, n as int) =~= s@);
    }
    Ok(acc)
}

/// Powers of 83 up to the tenth fit in 64 bits.
proof fn lemma_pow_tenth(n: int)
    requires
        0 <= n <= 10,
    ensures
        pow(83, n as nat) <= 15516041187205853449,
{
    reveal_with_fuel(pow, 11);
    if n < 10 {
        vstd::arithmetic::power::lemma_pow_increases(83, n as nat, 10);
    }
}

} // verus!
