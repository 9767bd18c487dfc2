use blurhash::decode;
use blurhash::encode;
use blurhash::DecodeError;
use blurhash::EncodeError;

fn uniform_red(width: usize, height: usize) -> Vec<u8> {
    let mut pixels: Vec<u8> = Vec::new();
    let mut n: usize = 0;
    while n < width * height {
        pixels.push(255);
        pixels.push(0);
        pixels.push(0);
        pixels.push(255);
        n += 1;
    }
    pixels
}

#[test]
fn test_encode_rejects_component_zero() {
    let pixels = uniform_red(2, 2);
    assert_eq!(
        encode(pixels.clone(), 2, 2, 0, 1),
        Err(EncodeError::ComponentNumberOutbound)
    );
    assert_eq!(
        encode(pixels, 2, 2, 1, 0),
        Err(EncodeError::ComponentNumberOutbound)
    );
}

#[test]
fn test_encode_rejects_component_ten() {
    let pixels = uniform_red(2, 2);
    assert_eq!(
        encode(pixels.clone(), 2, 2, 10, 1),
        Err(EncodeError::ComponentNumberOutbound)
    );
    assert_eq!(
        encode(pixels, 2, 2, 3, 10),
        Err(EncodeError::ComponentNumberOutbound)
    );
}

#[test]
fn test_encode_rejects_pixel_mismatch() {
    let mut pixels = uniform_red(2, 2);
    pixels.push(0);
    assert_eq!(
        encode(pixels, 2, 2, 3, 3),
        Err(EncodeError::PixelArrayMismatch)
    );
    let short = uniform_red(2, 1);
    assert_eq!(
        encode(short, 2, 2, 3, 3),
        Err(EncodeError::PixelArrayMismatch)
    );
}

#[test]
fn test_decode_rejects_short_hash() {
    assert_eq!(decode("00000", 4, 4), Err(DecodeError::InvalidLength));
    assert_eq!(decode("0", 4, 4), Err(DecodeError::InvalidLength));
    assert_eq!(decode("", 4, 4), Err(DecodeError::InvalidLength));
}

#[test]
fn test_decode_rejects_length_mismatch() {
    // A leading '0' declares a 1x1 grid, which takes exactly 6 characters.
    assert_eq!(decode("0000000", 4, 4), Err(DecodeError::LengthMismatch));
    // A leading '1' declares a 2x1 grid, which takes exactly 8 characters.
    assert_eq!(decode("1000000", 4, 4), Err(DecodeError::LengthMismatch));
    assert_eq!(decode("100000000", 4, 4), Err(DecodeError::LengthMismatch));
}

#[test]
fn test_one_by_one_hash_of_length_six_is_valid() {
    assert!(decode("000000", 2, 2).is_ok());
    assert!(decode("10000000", 2, 2).is_ok());
}

#[test]
fn test_encode_uniform_red_dc() {
    // A uniformly red image encoded with a 1x1 grid: the size flag is '0'
    // (a 1x1 grid) and the DC field holds exactly the packed red color.
    let hash = encode(uniform_red(4, 4), 4, 4, 1, 1).unwrap();
    assert_eq!(hash, "00TI:j");
    let other = encode(uniform_red(3, 5), 3, 5, 1, 1).unwrap();
    assert_eq!(other, "00TI:j");
}

#[test]
fn test_decode_flat_red() {
    let pixels = decode("00TI:j", 2, 2).unwrap();
    assert_eq!(
        pixels,
        vec![255, 0, 0, 255, 255, 0, 0, 255, 255, 0, 0, 255, 255, 0, 0, 255]
    );
}

#[test]
fn test_decode_black_dc() {
    let pixels = decode("000000", 1, 2).unwrap();
    assert_eq!(pixels, vec![0, 0, 0, 255, 0, 0, 0, 255]);
}

#[test]
fn test_encode_two_components() {
    // One red and one black pixel side by side, 2x1 grid: exercises the AC
    // quantization path end to end.
    let pixels: Vec<u8> = vec![255, 0, 0, 255, 0, 0, 0, 255];
    let hash = encode(pixels, 2, 1, 2, 1).unwrap();
    assert_eq!(hash, "1~Ljc~|c");
}

#[test]
fn test_decode_two_components() {
    let pixels = decode("1~Ljc~|c", 2, 1).unwrap();
    assert_eq!(pixels, vec![255, 0, 0, 255, 188, 0, 0, 255]);
}

#[test]
fn test_encode_gradient_two_by_two_grid() {
    let mut pixels: Vec<u8> = Vec::new();
    let mut y: usize = 0;
    while y < 4 {
        let mut x: usize = 0;
        while x < 4 {
            pixels.push((x * 60) as u8);
            pixels.push((y * 60) as u8);
            pixels.push(128);
            pixels.push(255);
            x += 1;
        }
        y += 1;
    }
    let hash = encode(pixels, 4, 4, 2, 2).unwrap();
    assert_eq!(hash, "ANDJPB3=.+Id");
    let out = decode(&hash, 2, 2).unwrap();
    assert_eq!(
        out,
        vec![75, 75, 183, 255, 139, 46, 155, 255, 46, 139, 155, 255, 115, 115, 128, 255]
    );
}

#[test]
fn test_round_trip_is_flat_for_dc_only() {
    // Encoding any image with a 1x1 grid then decoding yields one flat color
    // at every pixel of any output resolution.
    let mut pixels: Vec<u8> = Vec::new();
    let mut n: usize = 0;
    while n < 6 {
        pixels.push((n * 40) as u8);
        pixels.push(200);
        pixels.push(17);
        pixels.push(255);
        n += 1;
    }
    let hash = encode(pixels, 3, 2, 1, 1).unwrap();
    assert_eq!(hash.len(), 6);
    let out = decode(&hash, 3, 3).unwrap();
    let first = (out[0], out[1], out[2]);
    let mut p: usize = 0;
    while p < 9 {
        assert_eq!((out[4 * p], out[4 * p + 1], out[4 * p + 2]), first);
        assert_eq!(out[4 * p + 3], 255);
        p += 1;
    }
}

#[test]
fn test_hash_length_matches_grid() {
    let pixels = uniform_red(5, 4);
    let mut cx: usize = 1;
    while cx <= 9 {
        let hash = encode(pixels.clone(), 5, 4, cx, 3).unwrap();
        assert_eq!(hash.len(), 4 + 2 * cx * 3);
        assert!(decode(&hash, 2, 2).is_ok());
        cx += 1;
    }
}
