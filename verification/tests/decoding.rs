use blurhasher::decode::{blurhash_to_image_data, decoded_len};
use blurhasher::encode::encode;
use blurhasher::error::Error;

const OCTOCAT: &str = "LBAdAqof00WCqZj[PDay0.WB}pof";

fn solid(width: u32, height: u32, colour: [u8; 3]) -> Vec<u8> {
    let mut data = Vec::new();
    for _ in 0..width * height {
        data.extend_from_slice(&colour);
        data.push(255);
    }
    data
}

/// The way of a hash to an image: the library's part, the decoder, the
/// library's part.
fn decode(hash: &str, width: u32, height: u32, punch: f32) -> Result<Vec<u8>, Error> {
    let len = decoded_len(hash, width, height)?;
    let raw = blurhash::decode(hash, width, height, punch);
    assert_eq!(raw.len(), len as usize);
    let image = blurhash_to_image_data(hash, width, height, raw)?;
    assert_eq!((image.width, image.height), (width, height));
    Ok(image.data)
}

fn close(a: u8, b: u8) -> bool {
    (a as i32 - b as i32).abs() <= 2
}

#[test]
fn red_square_comes_back_red() {
    let hash = encode(1, 1, 2, 2, &solid(2, 2, [255, 0, 0])).unwrap();
    let pixels = decode(&hash, 2, 2, 1.0).unwrap();
    assert_eq!(pixels.len(), 16);
    for pixel in pixels.chunks(4) {
        assert!(close(pixel[0], 255) && close(pixel[1], 0) && close(pixel[2], 0));
        assert_eq!(pixel[3], 255);
    }
}

#[test]
fn solid_colours_come_back() {
    let colours = [[0, 0, 0], [255, 255, 255], [12, 200, 99], [128, 128, 128], [1, 2, 3], [250, 3, 77]];
    for (width, height) in [(1u32, 1u32), (2, 2), (7, 3), (16, 16)] {
        for colour in colours {
            let hash = encode(1, 1, width, height, &solid(width, height, colour)).unwrap();
            let pixels = decode(&hash, width, height, 1.0).unwrap();
            assert_eq!(pixels.len() as u32, width * height * 4);
            for pixel in pixels.chunks(4) {
                assert!(close(pixel[0], colour[0]), "{:?} {:?}", pixel, colour);
                assert!(close(pixel[1], colour[1]), "{:?} {:?}", pixel, colour);
                assert!(close(pixel[2], colour[2]), "{:?} {:?}", pixel, colour);
                assert_eq!(pixel[3], 255);
            }
        }
    }
}

#[test]
fn eight_characters_that_announce_twenty_eight() {
    assert_eq!(decode("LEHV6nl=", 32, 32, 1.0), Err(Error::SizeMismatch));
    assert_eq!(decoded_len("LEHV6nl=", 32, 32), Err(Error::SizeMismatch));
}

#[test]
fn five_characters_are_refused_for_their_length() {
    assert_eq!(decode("LEHV6", 32, 32, 1.0), Err(Error::MalformedLength));
    assert_eq!(decoded_len("LEHV6", 32, 32), Err(Error::MalformedLength));
}

#[test]
fn foreign_character_is_not_decoded() {
    assert_eq!(decoded_len("LBAdAqof00WCqZj[PDay0.WB}po ", 32, 32), Err(Error::InvalidCharacter));
    assert_eq!(decoded_len("00TI:\u{e9}", 2, 2), Err(Error::InvalidCharacter));
}

#[test]
fn twenty_eight_characters_at_thirty_two_square() {
    assert_eq!(OCTOCAT.len(), 28);
    assert_eq!(decoded_len(OCTOCAT, 32, 32), Ok(4096));
    let pixels = decode(OCTOCAT, 32, 32, 1.0).unwrap();
    assert_eq!(pixels.len(), 32 * 32 * 4);
    assert!(pixels.chunks(4).all(|pixel| pixel[3] == 255));
}

#[test]
fn more_pixels_than_can_be_addressed() {
    assert_eq!(decoded_len(OCTOCAT, 65536, 16384), Err(Error::ImageTooLarge));
    assert_eq!(decoded_len(OCTOCAT, 32768, 32768), Err(Error::ImageTooLarge));
    assert_eq!(decoded_len(OCTOCAT, 32768, 32767), Ok(4294836224));
    assert_eq!(decoded_len(OCTOCAT, 4294967295, 4294967295), Err(Error::ImageTooLarge));
    // The string is looked at before the size.
    assert_eq!(decoded_len("LEHV6", 65536, 65536), Err(Error::MalformedLength));
}

#[test]
fn nothing_to_decode_at_no_size() {
    assert_eq!(decoded_len(OCTOCAT, 0, 32), Err(Error::EmptyImage));
    assert_eq!(decoded_len(OCTOCAT, 32, 0), Err(Error::EmptyImage));
    assert_eq!(decoded_len(OCTOCAT, 2147483648, 0), Err(Error::EmptyImage));
    assert_eq!(decode(OCTOCAT, 0, 0, 1.0), Err(Error::EmptyImage));
    // The string is looked at before the size.
    assert_eq!(decoded_len("LEHV6nl=", 0, 0), Err(Error::SizeMismatch));
}

#[test]
fn bytes_have_to_suffice_for_the_image() {
    assert_eq!(
        blurhash_to_image_data(OCTOCAT, 2, 2, vec![0; 15]),
        Err(Error::BufferSizeMismatch)
    );
    assert_eq!(blurhash_to_image_data(OCTOCAT, 2, 2, Vec::new()), Err(Error::BufferSizeMismatch));
    let image = blurhash_to_image_data(OCTOCAT, 2, 2, vec![7; 16]).unwrap();
    assert_eq!((image.width, image.height), (2, 2));
    assert_eq!(image.data, vec![7; 16]);
    assert_eq!(
        blurhash_to_image_data(OCTOCAT, 2, 2, vec![7; 20]),
        Err(Error::BufferSizeMismatch)
    );
    assert_eq!(
        blurhash_to_image_data(OCTOCAT, 2, 2, vec![7; 17]),
        Err(Error::BufferSizeMismatch)
    );
}

#[test]
fn no_image_of_a_string_that_is_no_hash() {
    assert_eq!(blurhash_to_image_data("LEHV6", 2, 2, vec![0; 16]), Err(Error::MalformedLength));
    assert_eq!(blurhash_to_image_data("LEHV6nl=", 2, 2, vec![0; 16]), Err(Error::SizeMismatch));
    assert_eq!(blurhash_to_image_data("00TI j", 2, 2, vec![0; 16]), Err(Error::InvalidCharacter));
    // The string and the size are looked at before the bytes.
    assert_eq!(blurhash_to_image_data("LEHV6", 2, 2, Vec::new()), Err(Error::MalformedLength));
    assert_eq!(blurhash_to_image_data(OCTOCAT, 0, 2, Vec::new()), Err(Error::EmptyImage));
    assert_eq!(
        blurhash_to_image_data(OCTOCAT, 65536, 65536, vec![0; 16]),
        Err(Error::ImageTooLarge)
    );
}

#[test]
fn more_punch_more_contrast() {
    let spread = |punch: f32| -> f64 {
        let pixels = decode(OCTOCAT, 16, 16, punch).unwrap();
        let values: Vec<f64> =
            pixels.chunks(4).flat_map(|p| [p[0] as f64, p[1] as f64, p[2] as f64]).collect();
        let mean = values.iter().sum::<f64>() / values.len() as f64;
        values.iter().map(|v| (v - mean) * (v - mean)).sum::<f64>() / values.len() as f64
    };
    assert!(spread(0.5) < spread(1.0));
    assert!(spread(1.0) < spread(1.5));
}
