use agentduels::error::DecodeError;
use agentduels::varint::{
    push_varint, push_wide_varint, read_varint, take_varint, VarintRead, Width,
};

fn encoded(value: u32) -> Vec<u8> {
    let mut buf = Vec::new();
    push_varint(&mut buf, value);
    buf
}

fn encoded_wide(value: u128) -> Vec<u8> {
    let mut buf = Vec::new();
    push_wide_varint(&mut buf, value);
    buf
}

#[test]
fn varint_single_byte_values() {
    assert_eq!(encoded(0), vec![0x00]);
    assert_eq!(encoded(1), vec![0x01]);
    assert_eq!(encoded(127), vec![0x7F]);
}

#[test]
fn varint_multi_byte_values() {
    assert_eq!(encoded(128), vec![0x80, 0x01]);
    assert_eq!(encoded(300), vec![0xAC, 0x02]);
    assert_eq!(encoded(16383), vec![0xFF, 0x7F]);
    assert_eq!(encoded(16384), vec![0x80, 0x80, 0x01]);
    assert_eq!(encoded(u32::MAX), vec![0xFF, 0xFF, 0xFF, 0xFF, 0x0F]);
}

#[test]
fn varint_appends_to_what_is_there() {
    let mut buf = vec![9, 8, 7];
    push_varint(&mut buf, 300);
    assert_eq!(buf, vec![9, 8, 7, 0xAC, 0x02]);
}

#[test]
fn wide_varint_agrees_with_narrow() {
    for value in [0u32, 1, 127, 128, 255, 300, 65535, 65536, 1 << 28, u32::MAX] {
        assert_eq!(encoded_wide(value as u128), encoded(value));
    }
}

#[test]
fn wide_varint_largest_value_takes_nineteen_bytes() {
    let bytes = encoded_wide(u128::MAX);
    assert_eq!(bytes.len(), 19);
    assert!(bytes[..18].iter().all(|b| *b == 0xFF));
    assert_eq!(bytes[18], 0x03);
    assert_eq!(encoded_wide(u64::MAX as u128).len(), 10);
    assert_eq!(encoded_wide(u64::MAX as u128)[9], 0x01);
}

#[test]
fn read_varint_round_trip() {
    for value in [0u32, 1, 127, 128, 300, 16384, 20395, 1024952, u32::MAX] {
        let bytes = encoded(value);
        assert_eq!(read_varint(&bytes), Ok(Some((value, bytes.len()))));
    }
}

#[test]
fn read_varint_ignores_what_follows() {
    assert_eq!(read_varint(&[0xAC, 0x02, 0xFF, 0xFF]), Ok(Some((300, 2))));
    assert_eq!(read_varint(&[0x00, 0x80]), Ok(Some((0, 1))));
}

#[test]
fn read_varint_asks_for_more() {
    assert_eq!(read_varint(&[]), Ok(None));
    assert_eq!(read_varint(&[0x80]), Ok(None));
    assert_eq!(read_varint(&[0xFF, 0xFF, 0xFF, 0xFF]), Ok(None));
}

#[test]
fn read_varint_rejects_six_bytes() {
    assert_eq!(
        read_varint(&[0x80, 0x80, 0x80, 0x80, 0x80, 0x01]),
        Err(DecodeError::BadLength)
    );
    assert_eq!(
        read_varint(&[0xFF, 0xFF, 0xFF, 0xFF, 0xFF]),
        Err(DecodeError::BadLength)
    );
}

#[test]
fn read_varint_rejects_more_than_32_bits() {
    assert_eq!(
        read_varint(&[0xFF, 0xFF, 0xFF, 0xFF, 0x10]),
        Err(DecodeError::BadLength)
    );
    assert_eq!(
        read_varint(&[0xFF, 0xFF, 0xFF, 0xFF, 0x0F]),
        Ok(Some((u32::MAX, 5)))
    );
}

#[test]
fn read_varint_takes_padded_encodings() {
    assert_eq!(read_varint(&[0x80, 0x00]), Ok(Some((0, 2))));
    assert_eq!(read_varint(&[0x81, 0x80, 0x00]), Ok(Some((1, 3))));
}

#[test]
fn take_varint_at_a_position() {
    let data = [0xAA, 0xBB, 0xAC, 0x02, 0x05];
    assert_eq!(
        take_varint(&data, 2, Width::U32),
        VarintRead::Value { value: 300, len: 2 }
    );
    assert_eq!(
        take_varint(&data, 4, Width::U32),
        VarintRead::Value { value: 5, len: 1 }
    );
    assert_eq!(take_varint(&data, 5, Width::U32), VarintRead::Incomplete);
    assert_eq!(take_varint(&data, 6, Width::U32), VarintRead::Incomplete);
    assert_eq!(take_varint(&data, usize::MAX, Width::U16), VarintRead::Incomplete);
}

#[test]
fn take_varint_limits() {
    // Three bytes carry sixteen bits: the third byte holds two of them.
    assert_eq!(
        take_varint(&[0xFF, 0xFF, 0x03], 0, Width::U16),
        VarintRead::Value { value: 65535, len: 3 }
    );
    assert_eq!(take_varint(&[0xFF, 0xFF, 0x04], 0, Width::U16), VarintRead::Malformed);
    assert_eq!(take_varint(&[0xFF, 0xFF, 0x83], 0, Width::U16), VarintRead::Malformed);
    assert_eq!(
        take_varint(&[0xFF, 0xFF, 0x83, 0x01], 0, Width::U32),
        VarintRead::Value { value: 0x20FFFF, len: 4 }
    );
    let widest_64 = encoded_wide(u64::MAX as u128);
    assert_eq!(
        take_varint(&widest_64, 0, Width::U64),
        VarintRead::Value { value: u64::MAX as u128, len: 10 }
    );
    let widest = encoded_wide(u128::MAX);
    assert_eq!(
        take_varint(&widest, 0, Width::U128),
        VarintRead::Value { value: u128::MAX, len: 19 }
    );
    assert_eq!(take_varint(&widest, 0, Width::U64), VarintRead::Malformed);
    assert_eq!(take_varint(&widest[..18], 0, Width::U128), VarintRead::Incomplete);
}

#[test]
fn widths() {
    assert_eq!((Width::U16.max_len(), Width::U16.last_max()), (3, 3));
    assert_eq!((Width::U32.max_len(), Width::U32.last_max()), (5, 15));
    assert_eq!((Width::U64.max_len(), Width::U64.last_max()), (10, 1));
    assert_eq!((Width::U128.max_len(), Width::U128.last_max()), (19, 3));
}
