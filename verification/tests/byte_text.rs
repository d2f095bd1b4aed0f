use blurhasher::choice::{
    decode_input, decode_output, encode_input, encode_output, DecodeInput, EncodeInput, Output,
};
use blurhasher::text::image_text;

#[test]
fn bytes_as_decimal_numbers() {
    assert_eq!(image_text(&[]), "");
    assert_eq!(image_text(&[0]), "0");
    assert_eq!(image_text(&[9, 10, 99, 100, 255]), "91099100255");
    assert_eq!(image_text(&[255, 0, 0, 255]), "25500255");
}

#[test]
fn text_is_what_joining_the_numbers_gives() {
    let bytes: Vec<u8> = (0..=255u8).collect();
    let expected = bytes.iter().map(|b| b.to_string()).collect::<Vec<String>>().join("");
    assert_eq!(image_text(&bytes), expected);
}

#[test]
fn a_file_goes_before_the_other_inputs() {
    assert_eq!(encode_input(true, true, true), EncodeInput::File);
    assert_eq!(encode_input(false, true, true), EncodeInput::Stdin);
    assert_eq!(encode_input(false, false, true), EncodeInput::Base64);
    assert_eq!(encode_input(false, false, false), EncodeInput::Missing);
    assert_eq!(decode_input(true, true), DecodeInput::File);
    assert_eq!(decode_input(false, true), DecodeInput::Stdin);
    assert_eq!(decode_input(false, false), DecodeInput::Missing);
}

#[test]
fn a_file_goes_before_standard_output() {
    assert_eq!(encode_output(true), Output::File);
    assert_eq!(encode_output(false), Output::Stdout);
    assert_eq!(decode_output(true, true), Output::File);
    assert_eq!(decode_output(false, true), Output::Stdout);
    assert_eq!(decode_output(false, false), Output::Missing);
}
