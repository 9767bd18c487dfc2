use blurhash::color::linear2srgb;
use blurhash::color::srgb2linear;

#[test]
fn test_srgb_round_trip_all_bytes() {
    let mut b: u16 = 0;
    while b <= 255 {
        let linear = srgb2linear(b as u8);
        assert_eq!(linear2srgb(linear), b as u8);
        b += 1;
    }
}

#[test]
fn test_srgb2linear_endpoints() {
    assert_eq!(srgb2linear(0), 0);
    assert_eq!(srgb2linear(255), 65536);
    assert_eq!(srgb2linear(128), 14147);
}

#[test]
fn test_linear2srgb_saturates() {
    assert_eq!(linear2srgb(-5), 0);
    assert_eq!(linear2srgb(0), 0);
    assert_eq!(linear2srgb(65536), 255);
    assert_eq!(linear2srgb(70000), 255);
}
