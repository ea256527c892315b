use whatql::value::{parse_value, SerialType, SqliteValue};
use whatql::DecodeError;

#[test]
fn null_and_constants() {
    let r = parse_value(0, &[]).unwrap();
    assert_eq!(r.value, SqliteValue::Null);
    assert_eq!(r.bytes_consumed, 0);
    let r = parse_value(8, &[0xAA]).unwrap();
    assert_eq!(r.value, SqliteValue::Integer(0));
    assert_eq!(r.bytes_consumed, 0);
    let r = parse_value(9, &[]).unwrap();
    assert_eq!(r.value, SqliteValue::Integer(1));
    assert_eq!(r.bytes_consumed, 0);
}

#[test]
fn sign_extension_24_bit() {
    let r = parse_value(3, &[0xFF, 0xFF, 0xFF]).unwrap();
    assert_eq!(r.value, SqliteValue::Integer(-1));
    assert_eq!(r.bytes_consumed, 3);
    let r = parse_value(3, &[0x00, 0x00, 0x01]).unwrap();
    assert_eq!(r.value, SqliteValue::Integer(1));
    assert_eq!(r.bytes_consumed, 3);
}

#[test]
fn integer_widths() {
    assert_eq!(parse_value(1, &[0x80]).unwrap().value, SqliteValue::Integer(-128));
    assert_eq!(parse_value(1, &[0x7F]).unwrap().value, SqliteValue::Integer(127));
    assert_eq!(parse_value(2, &[0xFF, 0xFE]).unwrap().value, SqliteValue::Integer(-2));
    assert_eq!(parse_value(4, &[0x7F, 0xFF, 0xFF, 0xFF]).unwrap().value, SqliteValue::Integer(
        i32::MAX as i64
    ));
    assert_eq!(
        parse_value(5, &[0xFF, 0xFF, 0xFF, 0xFF, 0xFF, 0xFF]).unwrap().value,
        SqliteValue::Integer(-1)
    );
    assert_eq!(
        parse_value(6, &[0x80, 0, 0, 0, 0, 0, 0, 0]).unwrap().value,
        SqliteValue::Integer(i64::MIN)
    );
    assert_eq!(
        parse_value(6, &[0xFF; 8]).unwrap().value,
        SqliteValue::Integer(-1)
    );
}

#[test]
fn float_bits_pass_through() {
    let bits = 1.5f64.to_bits();
    let bytes = bits.to_be_bytes();
    let r = parse_value(7, &bytes).unwrap();
    assert_eq!(r.value, SqliteValue::Float(bits));
    assert_eq!(r.bytes_consumed, 8);
    match r.value {
        SqliteValue::Float(b) => assert_eq!(f64::from_bits(b), 1.5),
        _ => panic!("expected a float"),
    }
}

#[test]
fn reserved_serial_types() {
    assert_eq!(parse_value(10, &[1, 2, 3]), Err(DecodeError::ReservedSerialType));
    assert_eq!(parse_value(11, &[]), Err(DecodeError::ReservedSerialType));
}

#[test]
fn blob_and_text_size_formula() {
    // even n >= 12: blob of length (n-12)/2
    let r = parse_value(12, &[]).unwrap();
    assert_eq!(r.value, SqliteValue::Blob(vec![]));
    assert_eq!(r.bytes_consumed, 0);
    let r = parse_value(14, &[0xAB, 0xCD]).unwrap();
    assert_eq!(r.value, SqliteValue::Blob(vec![0xAB]));
    assert_eq!(r.bytes_consumed, 1);
    // odd n >= 13: text of length (n-13)/2
    let r = parse_value(13, &[]).unwrap();
    assert_eq!(r.value, SqliteValue::Text(String::new()));
    assert_eq!(r.bytes_consumed, 0);
    let r = parse_value(15, &[b'x', b'y']).unwrap();
    assert_eq!(r.value, SqliteValue::Text("x".to_string()));
    assert_eq!(r.bytes_consumed, 1);
}

#[test]
fn text_decodes_utf8() {
    let tag = 13 + 2 * 6;
    let r = parse_value(tag, b"apples!").unwrap();
    assert_eq!(r.value, SqliteValue::Text("apples".to_string()));
    assert_eq!(r.bytes_consumed, 6);
}

#[test]
fn text_decodes_multibyte_utf8() {
    // six bytes, five characters: decoding is not a byte-for-byte copy
    let text = "h\u{e9}llo";
    assert_eq!(text.len(), 6);
    let tag = 13 + 2 * 6;
    let r = parse_value(tag, text.as_bytes()).unwrap();
    assert_eq!(r.value, SqliteValue::Text(text.to_string()));
    assert_eq!(r.bytes_consumed, 6);
}

#[test]
fn text_invalid_utf8() {
    let r = parse_value(15, &[0xFF, 0xFE]);
    assert_eq!(r, Err(DecodeError::InvalidUtf8));
}

#[test]
fn truncated_payloads() {
    assert_eq!(parse_value(1, &[]), Err(DecodeError::TruncatedInput));
    assert_eq!(parse_value(3, &[0, 0]), Err(DecodeError::TruncatedInput));
    assert_eq!(parse_value(6, &[0; 7]), Err(DecodeError::TruncatedInput));
    assert_eq!(parse_value(7, &[0; 7]), Err(DecodeError::TruncatedInput));
    assert_eq!(parse_value(14, &[]), Err(DecodeError::TruncatedInput));
    assert_eq!(parse_value(15, &[]), Err(DecodeError::TruncatedInput));
}

#[test]
fn serial_type_sizes() {
    assert_eq!(SerialType::get_size_for_type(0), 0);
    assert_eq!(SerialType::get_size_for_type(1), 1);
    assert_eq!(SerialType::get_size_for_type(2), 2);
    assert_eq!(SerialType::get_size_for_type(3), 3);
    assert_eq!(SerialType::get_size_for_type(4), 4);
    assert_eq!(SerialType::get_size_for_type(5), 6);
    assert_eq!(SerialType::get_size_for_type(6), 8);
    assert_eq!(SerialType::get_size_for_type(7), 8);
    assert_eq!(SerialType::get_size_for_type(8), 0);
    assert_eq!(SerialType::get_size_for_type(9), 0);
    assert_eq!(SerialType::get_size_for_type(12), 0);
    assert_eq!(SerialType::get_size_for_type(14), 1);
    assert_eq!(SerialType::get_size_for_type(13), 0);
    assert_eq!(SerialType::get_size_for_type(15), 1);
    assert_eq!(SerialType::get_size_for_type(10), 0);
}

#[test]
fn serial_type_names() {
    assert_eq!(SerialType::storage_class_name(0), "NULL");
    assert_eq!(SerialType::storage_class_name(1), "INTEGER");
    assert_eq!(SerialType::storage_class_name(6), "INTEGER");
    assert_eq!(SerialType::storage_class_name(7), "REAL");
    assert_eq!(SerialType::storage_class_name(8), "BOOLEAN");
    assert_eq!(SerialType::storage_class_name(9), "BOOLEAN");
    assert_eq!(SerialType::storage_class_name(14), "BLOB");
    assert_eq!(SerialType::storage_class_name(15), "TEXT");
    assert_eq!(SerialType::storage_class_name(10), "UNKNOWN");
}

#[test]
fn serial_type_constants() {
    assert_eq!(SerialType::NULL, 0);
    assert_eq!(SerialType::INT48, 5);
    assert_eq!(SerialType::FLOAT64, 7);
    assert_eq!(SerialType::BLOB, 12);
    assert_eq!(SerialType::TEXT, 13);
}
