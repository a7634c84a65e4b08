use simple_core::little_endian::u128_le_bytes;

#[test]
fn small_value_has_its_low_byte_first() {
    let mut expected = vec![0x02u8, 0x01];
    expected.extend_from_slice(&[0u8; 14]);
    assert_eq!(u128_le_bytes(0x0102), expected);
}

#[test]
fn extremes_are_all_zeros_and_all_ones() {
    assert_eq!(u128_le_bytes(0), vec![0u8; 16]);
    assert_eq!(u128_le_bytes(u128::MAX), vec![0xffu8; 16]);
}

#[test]
fn bytes_match_the_standard_encoding() {
    for value in [1u128, 255, 256, 1001, 1u128 << 64, (1u128 << 64) - 1, 1u128 << 127, u128::MAX - 1, 0x0123_4567_89ab_cdef_0011_2233_4455_6677] {
        assert_eq!(u128_le_bytes(value), value.to_le_bytes().to_vec());
    }
}
