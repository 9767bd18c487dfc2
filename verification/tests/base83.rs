use blurhash::decode83;
use blurhash::encode83;

#[test]
fn test_decode83() {
    // Arrange
    let string = "1";
    let expected_result = 1;

    // Act
    let result = decode83(&string);

    // Assert
    assert_eq!(result, expected_result);
}

#[test]
fn test_encode83() {
    // Arrange
    let number = 0;
    let length = 2;
    let expected_result = String::from("00");

    // Act
    let result = encode83(number, length);

    // Assert
    assert_eq!(result, expected_result);
}

#[test]
fn test_encode83_nonzero() {
    assert_eq!(encode83(1, 2), "01");
    assert_eq!(encode83(82, 1), "~");
    assert_eq!(encode83(83, 2), "10");
    assert_eq!(encode83(16711680, 4), "TI:j");
}

#[test]
fn test_decode83_fields() {
    assert_eq!(decode83("TI:j"), 16711680);
    assert_eq!(decode83("~"), 82);
    assert_eq!(decode83("10"), 83);
    assert_eq!(decode83(""), 0);
}

#[test]
fn test_base83_round_trip_length_1() {
    let mut n: usize = 0;
    while n < 83 {
        assert_eq!(decode83(&encode83(n, 1)), n);
        n += 1;
    }
}

#[test]
fn test_base83_round_trip_length_2() {
    let mut n: usize = 0;
    while n < 83 * 83 {
        assert_eq!(decode83(&encode83(n, 2)), n);
        n += 101;
    }
    assert_eq!(decode83(&encode83(83 * 83 - 1, 2)), 83 * 83 - 1);
}

#[test]
fn test_base83_round_trip_length_4() {
    let top: usize = 83 * 83 * 83 * 83;
    let mut n: usize = 0;
    while n < top {
        assert_eq!(decode83(&encode83(n, 4)), n);
        n += 1048573;
    }
    assert_eq!(decode83(&encode83(top - 1, 4)), top - 1);
}
