use ray_tracing_weekend::encode::{encode_png, EncodeError};

const SIGNATURE: [u8; 8] = [137, 80, 78, 71, 13, 10, 26, 10];

#[test]
fn encodes_a_frame_as_png() {
    let pixels: Vec<u8> = vec![255, 0, 0, 0, 255, 0, 0, 0, 255, 9, 9, 9];
    let bytes = encode_png(&pixels, 2, 2).unwrap();
    assert_eq!(&bytes[..8], &SIGNATURE);
    assert_ne!(bytes, pixels);
    // IHDR holds the width and the height, big-endian, after its length and tag.
    assert_eq!(&bytes[12..16], b"IHDR");
    assert_eq!(&bytes[16..20], &[0, 0, 0, 2]);
    assert_eq!(&bytes[20..24], &[0, 0, 0, 2]);
}

#[test]
fn png_of_wrong_length_is_refused() {
    assert_eq!(encode_png(&vec![0; 11], 2, 2), Err(EncodeError::WrongLength));
}

#[test]
fn png_of_empty_frame_is_refused() {
    assert_eq!(encode_png(&Vec::new(), 0, 3), Err(EncodeError::EmptyImage));
    assert_eq!(encode_png(&Vec::new(), 3, 0), Err(EncodeError::EmptyImage));
}

#[test]
fn png_of_huge_width_is_refused() {
    let width = (u32::MAX as usize) + 1;
    assert_eq!(encode_png(&Vec::new(), width, 0), Err(EncodeError::TooLarge));
}
