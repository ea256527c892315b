use whatql::varint::{decode_sqlite_varint, VarInt};
use whatql::DecodeError;

fn round_trip(v: u64) {
    let encoded = VarInt::encode(v);
    assert_eq!(encoded.len(), VarInt::encoded_size(v));
    let (decoded, used) = VarInt::decode(&encoded).expect("round trip must decode");
    assert_eq!(decoded, v);
    assert_eq!(used, encoded.len());
}

#[test]
fn varint_round_trip_small_values() {
    for v in 0..=300u64 {
        round_trip(v);
    }
}

#[test]
fn varint_round_trip_boundaries() {
    let cases = [
        0u64,
        1,
        127,
        128,
        16383,
        16384,
        2097151,
        2097152,
        268435455,
        268435456,
        34359738367,
        34359738368,
        4398046511103,
        4398046511104,
        562949953421311,
        562949953421312,
        72057594037927935,
        72057594037927936,
        u64::MAX,
    ];
    for &v in cases.iter() {
        round_trip(v);
    }
}

#[test]
fn varint_boundary_lengths() {
    assert_eq!(VarInt::encode(127).len(), 1);
    assert_eq!(VarInt::encode(128).len(), 2);
    assert_eq!(VarInt::encode((1u64 << 56) - 1).len(), 8);
    assert_eq!(VarInt::encode(1u64 << 56).len(), 9);
}

#[test]
fn varint_ninth_byte_is_whole() {
    // the final byte of a nine-byte encoding carries all 8 bits
    let encoded = VarInt::encode(u64::MAX);
    assert_eq!(encoded.len(), 9);
    assert_eq!(encoded[8], 0xFF);
    let low = VarInt::encode(1u64 << 56);
    assert_eq!(low.len(), 9);
    assert_eq!(low[8], 0x00);
    // every earlier byte keeps its continuation bit
    for i in 0..8 {
        assert!(low[i] & 0x80 != 0);
    }
}

#[test]
fn varint_encoded_size_table() {
    assert_eq!(VarInt::encoded_size(0), 1);
    assert_eq!(VarInt::encoded_size(127), 1);
    assert_eq!(VarInt::encoded_size(128), 2);
    assert_eq!(VarInt::encoded_size(16383), 2);
    assert_eq!(VarInt::encoded_size(16384), 3);
    assert_eq!(VarInt::encoded_size(u64::MAX), 9);
}

#[test]
fn varint_decode_stops_at_clear_high_bit() {
    let (v, n) = VarInt::decode(&[0x81, 0x01, 0x7F]).unwrap();
    assert_eq!(v, 0x81);
    assert_eq!(n, 2);
}

#[test]
fn varint_decode_reads_only_what_it_needs() {
    // a one-byte varint at the head of a longer buffer
    let (v, n) = VarInt::decode(&[0x05, 0xFF, 0xFF]).unwrap();
    assert_eq!(v, 5);
    assert_eq!(n, 1);
}

#[test]
fn varint_decode_truncated() {
    assert_eq!(VarInt::decode(&[]), Err(DecodeError::TruncatedInput));
    assert_eq!(VarInt::decode(&[0x80]), Err(DecodeError::TruncatedInput));
    assert_eq!(
        VarInt::decode(&[0xFF, 0xFF, 0xFF, 0xFF, 0xFF, 0xFF, 0xFF, 0xFF]),
        Err(DecodeError::TruncatedInput)
    );
}

#[test]
fn varint_nine_byte_decode() {
    let mut bytes = vec![0xFFu8; 8];
    bytes.push(0xFF);
    let (v, n) = VarInt::decode(&bytes).unwrap();
    assert_eq!(v, u64::MAX);
    assert_eq!(n, 9);
}

#[test]
fn free_standing_decoder_agrees() {
    let encoded = VarInt::encode(987654321);
    let (v, n) = decode_sqlite_varint(&encoded);
    assert_eq!(v, 987654321);
    assert_eq!(n, encoded.len());
}

#[test]
fn encode_record_size_matches_encode() {
    assert_eq!(VarInt::encode_record_size(300), VarInt::encode(300));
}

#[test]
fn parse_column_header_splits_bits() {
    let (type_code, size) = VarInt::parse_column_header(0x1F);
    assert_eq!(type_code, 7);
    assert_eq!(size, 3);
    let (type_code, size) = VarInt::parse_column_header(8);
    assert_eq!(type_code, 0);
    assert_eq!(size, 1);
}
