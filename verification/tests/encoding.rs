use hivm::encoding::{decode_le, encode_le};

#[test]
fn encodes_the_low_bytes_least_significant_first() {
    assert_eq!(encode_le(0x1234, 2), vec![0x34, 0x12]);
    assert_eq!(encode_le(0xFF, 4), vec![0xFF, 0, 0, 0]);
    assert_eq!(encode_le(0x0102030405060708, 8), vec![8, 7, 6, 5, 4, 3, 2, 1]);
    assert_eq!(encode_le(0x0102030405060708, 3), vec![8, 7, 6]);
    assert_eq!(encode_le(77, 0), Vec::<u8>::new());
    assert_eq!(encode_le(u64::MAX, 10), vec![255, 255, 255, 255, 255, 255, 255, 255, 0, 0]);
}

#[test]
fn decodes_what_was_encoded() {
    assert_eq!(decode_le(&[0x34, 0x12]), 0x1234);
    assert_eq!(decode_le(&[]), 0);
    assert_eq!(decode_le(&[0, 0, 0, 0, 0, 0, 0, 0x80]), 0x8000_0000_0000_0000);
    for value in [0u64, 1, 255, 256, 0xFFFF, 0x1_0000, u64::MAX, 0x8000_0000_0000_0001] {
        assert_eq!(decode_le(&encode_le(value, 8)), value);
    }
    for value in [0u64, 1, 255, 256, 0xFFFF] {
        assert_eq!(decode_le(&encode_le(value, 2)), value);
    }
    assert_eq!(decode_le(&encode_le(0x12345, 2)), 0x2345);
}
