use blurhasher::base83::{decode, digit_of, encode, symbol_of};
use blurhasher::error::Error;

#[test]
fn encode_two_digits() {
    assert_eq!(encode(6869, 2), "~$");
}

#[test]
fn decode_two_digits() {
    assert_eq!(decode("~$"), Ok(6869));
}

#[test]
fn encode_pads_with_the_zero_symbol() {
    assert_eq!(encode(0, 4), "0000");
    assert_eq!(encode(82, 1), "~");
    assert_eq!(encode(83, 2), "10");
    assert_eq!(encode(0, 0), "");
}

#[test]
fn decode_refuses_a_foreign_character() {
    assert_eq!(decode("a b"), Err(Error::InvalidCharacter));
    assert_eq!(decode("/"), Err(Error::InvalidCharacter));
    assert_eq!(decode("\u{e9}"), Err(Error::InvalidCharacter));
}

#[test]
fn decode_of_nothing_is_zero() {
    assert_eq!(decode(""), Ok(0));
}

#[test]
fn every_digit_has_its_symbol() {
    let alphabet = "0123456789ABCDEFGHIJKLMNOPQRSTUVWXYZabcdefghijklmnopqrstuvwxyz#$%*+,-.:;=?@[]^_{|}~";
    assert_eq!(alphabet.chars().count(), 83);
    for (d, c) in alphabet.chars().enumerate() {
        assert_eq!(symbol_of(d as u8), c);
        assert_eq!(digit_of(c), Some(d as u8));
    }
}

#[test]
fn numbers_survive_the_round_trip() {
    for value in [0u64, 1, 82, 83, 6858, 6888, 16777215, 47458320] {
        assert_eq!(decode(&encode(value, 4)), Ok(value));
    }
    assert_eq!(decode(&encode(15516041187205853448, 10)), Ok(15516041187205853448));
}
