use verity_canister::codec::{decode_value, encode_value};

#[test]
fn encodes_little_endian() {
    assert_eq!(encode_value(1234), vec![0xd2, 0x04, 0, 0, 0, 0, 0, 0]);
}

#[test]
fn round_trip() {
    for v in [0u64, 1, 255, 256, 1234, 1 << 40, u64::MAX] {
        assert_eq!(decode_value(&encode_value(v)), Some(v));
    }
}

#[test]
fn wrong_length_is_refused() {
    assert_eq!(decode_value(&[1, 2, 3]), None);
    assert_eq!(decode_value(&[0; 9]), None);
}
