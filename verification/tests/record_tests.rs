use whatql::cell::{cell_header_offset, Cell};
use whatql::record::{
    decode_record_parts, DataRecord, RecordType, SchemaRecord, SchemaRecordType,
};
use whatql::value::SqliteValue;
use whatql::DecodeError;

/// Record bytes for the row [Integer(1), Text("apples")]: header length 3,
/// serial codes 1 and 25, then the payloads.
fn apples_record() -> Vec<u8> {
    let mut bytes = vec![3u8, 1, 25, 1];
    bytes.extend_from_slice(b"apples");
    bytes
}

#[test]
fn record_parallel_arrays() {
    let bytes = apples_record();
    let rec = DataRecord::new(&bytes, 0).unwrap();
    assert_eq!(rec.header_size, 3);
    assert_eq!(rec.serial_codes, vec![1, 25]);
    assert_eq!(rec.serial_codes.len(), rec.values.len());
    assert_eq!(rec.values[0], SqliteValue::Integer(1));
    assert_eq!(rec.values[1], SqliteValue::Text("apples".to_string()));
}

#[test]
fn record_each_value_decoded_with_its_code() {
    // three columns of three different serial types, in order
    let bytes = vec![4u8, 1, 2, 9, 0x05, 0x01, 0x00];
    let rec = DataRecord::new(&bytes, 0).unwrap();
    assert_eq!(rec.serial_codes, vec![1, 2, 9]);
    assert_eq!(rec.values, vec![
        SqliteValue::Integer(5),
        SqliteValue::Integer(256),
        SqliteValue::Integer(1),
    ]);
}

#[test]
fn record_at_offset() {
    let mut bytes = vec![0xAAu8; 4];
    bytes.extend_from_slice(&apples_record());
    let rec = DataRecord::new(&bytes, 4).unwrap();
    assert_eq!(rec.values.len(), 2);
}

#[test]
fn record_empty_header() {
    // header length 1 counts only itself: no columns
    let bytes = vec![1u8];
    let rec = DataRecord::new(&bytes, 0).unwrap();
    assert_eq!(rec.serial_codes.len(), 0);
    assert_eq!(rec.values.len(), 0);
}

#[test]
fn record_zero_header_is_corrupt() {
    assert_eq!(DataRecord::new(&[0u8], 0).err(), Some(DecodeError::TruncatedInput));
}

#[test]
fn record_truncated_header() {
    // header claims 5 bytes of serial codes but the buffer ends first
    let bytes = vec![6u8, 1, 1];
    assert_eq!(DataRecord::new(&bytes, 0).err(), Some(DecodeError::TruncatedInput));
}

#[test]
fn record_truncated_value() {
    // serial code 6 wants 8 payload bytes; only 2 follow
    let bytes = vec![2u8, 6, 0x01, 0x02];
    assert_eq!(DataRecord::new(&bytes, 0).err(), Some(DecodeError::TruncatedInput));
}

#[test]
fn record_reserved_serial_type() {
    let bytes = vec![2u8, 10];
    assert_eq!(DataRecord::new(&bytes, 0).err(), Some(DecodeError::ReservedSerialType));
}

#[test]
fn record_parts_agree_with_record() {
    let bytes = apples_record();
    let (h, codes, values) = decode_record_parts(&bytes, 0).unwrap();
    assert_eq!(h, 3);
    assert_eq!(codes.len(), values.len());
    assert_eq!(codes, vec![1, 25]);
}

#[test]
fn schema_record_starts_blank() {
    let bytes = apples_record();
    let rec = SchemaRecord::new(&bytes, 0).unwrap();
    assert_eq!(rec.columns.record_type, SchemaRecordType::Table);
    assert_eq!(rec.columns.record_name, "");
    assert_eq!(rec.columns.table_name, "");
    assert_eq!(rec.columns.root_page, 0);
    assert_eq!(rec.columns.sql, "");
    assert_eq!(rec.values.len(), 2);
}

#[test]
fn schema_record_type_names() {
    assert_eq!(SchemaRecordType::Table.as_str(), "table");
    assert_eq!(SchemaRecordType::Index.as_str(), "index");
    assert_eq!(SchemaRecordType::View.as_str(), "view");
    assert_eq!(SchemaRecordType::Trigger.as_str(), "trigger");
    assert_eq!(SchemaRecordType::View.clone(), SchemaRecordType::View);
}

#[test]
fn record_clone_is_deep() {
    let bytes = apples_record();
    let rec = DataRecord::new(&bytes, 0).unwrap();
    let copy = rec.clone();
    assert_eq!(copy, rec);
}

#[test]
fn cell_decodes_sizes_rowid_and_record() {
    // record_size 10, row id 7, then the apples record
    let mut bytes = vec![10u8, 7];
    bytes.extend_from_slice(&apples_record());
    let cell = Cell::new(&bytes, 0, false).unwrap();
    assert_eq!(cell.record_size, 10);
    assert_eq!(cell.row_id, 7);
    match &cell.record {
        RecordType::DataRecord(rec) => {
            assert_eq!(rec.values[1], SqliteValue::Text("apples".to_string()));
        },
        RecordType::SchemaRecord(_) => panic!("expected a data record"),
    }
}

#[test]
fn cell_schema_flavor() {
    let mut bytes = vec![10u8, 7];
    bytes.extend_from_slice(&apples_record());
    let cell = Cell::new(&bytes, 0, true).unwrap();
    assert!(matches!(cell.record, RecordType::SchemaRecord(_)));
}

#[test]
fn cell_truncated() {
    assert_eq!(Cell::new(&[], 0, false).err(), Some(DecodeError::TruncatedInput));
    assert_eq!(Cell::new(&[10u8], 0, false).err(), Some(DecodeError::TruncatedInput));
}

#[test]
fn cell_header_offset_adjusts_for_page_one() {
    assert_eq!(cell_header_offset(108, true), Ok(8));
    assert_eq!(cell_header_offset(108, false), Ok(108));
    assert_eq!(cell_header_offset(99, true), Err(DecodeError::TruncatedInput));
}

#[test]
fn decoding_is_idempotent() {
    let bytes = apples_record();
    let first = DataRecord::new(&bytes, 0).unwrap();
    let second = DataRecord::new(&bytes, 0).unwrap();
    assert_eq!(first, second);
}
