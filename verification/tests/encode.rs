use exepatch::encode::{encode_bounded_decimal, encode_decimal, le32_bytes};
use exepatch::engine::PatchError;

#[test]
fn le32_bytes_little_endian_order() {
    assert_eq!(le32_bytes(0x11223344), vec![0x44, 0x33, 0x22, 0x11]);
    assert_eq!(le32_bytes(0), vec![0, 0, 0, 0]);
    assert_eq!(le32_bytes(u32::MAX), vec![0xff, 0xff, 0xff, 0xff]);
}

#[test]
fn le32_bytes_matches_float_bit_patterns() {
    for value in [1.925f32, 10000.0, 300.0, 41.0, 50.0] {
        assert_eq!(le32_bytes(value.to_bits()), value.to_le_bytes().to_vec());
    }
}

#[test]
fn decimal_digits_exact() {
    assert_eq!(encode_decimal(0), b"0".to_vec());
    assert_eq!(encode_decimal(7), b"7".to_vec());
    assert_eq!(encode_decimal(64), b"64".to_vec());
    assert_eq!(encode_decimal(998), b"998".to_vec());
    assert_eq!(encode_decimal(1000), b"1000".to_vec());
    assert_eq!(encode_decimal(4294967295), b"4294967295".to_vec());
}

#[test]
fn bounded_decimal_appends_terminator() {
    assert_eq!(encode_bounded_decimal(64, 4), Ok(b"64\0".to_vec()));
    assert_eq!(encode_bounded_decimal(998, 4), Ok(b"998\0".to_vec()));
    assert_eq!(encode_bounded_decimal(1, 4), Ok(b"1\0".to_vec()));
}

#[test]
fn bounded_decimal_too_long() {
    assert_eq!(encode_bounded_decimal(1000, 4), Err(PatchError::TooLong));
    assert_eq!(encode_bounded_decimal(0, 1), Err(PatchError::TooLong));
    assert_eq!(encode_bounded_decimal(0, 0), Err(PatchError::TooLong));
}
