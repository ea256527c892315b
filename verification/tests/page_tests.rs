use whatql::cell::cell_header_offset;
use whatql::header::{DatabaseHeader, SQLITE_MAGIC};
use whatql::page::{check_page_in_file, page_byte_offset, DataPage, PageHeader, SchemaPage};
use whatql::record::RecordType;
use whatql::value::SqliteValue;
use whatql::DecodeError;

const MAGIC: &[u8; 16] = b"SQLite format 3\0";

/// A hand-built single-page database: page size 512, one leaf table page,
/// one row with the columns [Integer(1), Text("apples")] whose cell fills
/// the last 12 bytes of the page, at absolute offset 500.
fn minimal_database() -> Vec<u8> {
    let mut buf = vec![0u8; 512];
    buf[0..16].copy_from_slice(MAGIC);
    buf[16] = 0x02; // page size 512, big-endian
    buf[17] = 0x00;
    buf[56..60].copy_from_slice(&1u32.to_be_bytes()); // UTF-8 text encoding
    // page header at offset 100: leaf table page with one cell
    buf[100] = 0x0D;
    buf[103] = 0x00;
    buf[104] = 0x01; // one cell
    buf[105] = 0x01;
    buf[106] = 0xF4; // content area starts at 500
    // cell pointer array at 108: one absolute offset, 500
    buf[108] = 0x01;
    buf[109] = 0xF4;
    // the cell at 500: payload size 10, row id 1, then the record
    let cell: [u8; 12] = [10, 1, 3, 1, 25, 1, b'a', b'p', b'p', b'l', b'e', b's'];
    buf[500..512].copy_from_slice(&cell);
    buf
}

#[test]
fn header_parses_magic_and_page_size() {
    let buf = minimal_database();
    let h = DatabaseHeader::parse(&buf).unwrap();
    assert_eq!(h.header_string, SQLITE_MAGIC);
    assert_eq!(h.page_size, 512);
    assert_eq!(h.real_page_size(), 512);
    assert_eq!(h.text_encoding, 1);
    assert_eq!(h.raw_data.len(), 100);
}

#[test]
fn header_sentinel_page_size() {
    let mut buf = minimal_database();
    buf[16] = 0x00;
    buf[17] = 0x01;
    let h = DatabaseHeader::parse(&buf).unwrap();
    assert_eq!(h.page_size, 1);
    assert_eq!(h.real_page_size(), 65536);
}

#[test]
fn header_rejects_bad_magic() {
    let mut buf = minimal_database();
    buf[0] = b'X';
    assert_eq!(DatabaseHeader::parse(&buf).err(), Some(DecodeError::InvalidMagic));
}

#[test]
fn header_rejects_short_input() {
    assert_eq!(DatabaseHeader::parse(&[0u8; 99]).err(), Some(DecodeError::TruncatedInput));
}

#[test]
fn header_clone_keeps_fields() {
    let buf = minimal_database();
    let h = DatabaseHeader::parse(&buf).unwrap();
    let copy = h.clone();
    assert_eq!(copy.page_size, h.page_size);
    assert_eq!(copy.raw_data, h.raw_data);
}

#[test]
fn page_header_layout() {
    let raw = [0x0Du8, 0x00, 0x10, 0x00, 0x02, 0x01, 0xC2, 0x05];
    let ph = PageHeader::new(&raw);
    assert_eq!(ph.page_type, 0x0D);
    assert_eq!(ph.first_free_block, 16);
    assert_eq!(ph.num_cells, 2);
    assert_eq!(ph.start_of_cell_content_area, 450);
    assert_eq!(ph.num_frag_free_bytes, 5);
}

#[test]
fn page_header_parse_offsets() {
    let buf = minimal_database();
    let first = PageHeader::parse(&buf, true).unwrap();
    assert_eq!(first.page_type, 0x0D);
    assert_eq!(first.num_cells, 1);
    let other = PageHeader::parse(&[0u8; 8], false).unwrap();
    assert_eq!(other.page_type, 0);
    assert_eq!(PageHeader::parse(&buf[..90], true).err(), Some(DecodeError::TruncatedInput));
}

#[test]
fn content_area_sentinel() {
    let raw = [0x0Du8, 0, 0, 0, 0, 0, 0, 0];
    let ph = PageHeader::new(&raw);
    assert_eq!(ph.content_area_start(), 65536);
}

#[test]
fn page_one_offset_adjustment() {
    // a 100-byte header, the 8-byte page header, one cell pointer at 108
    let buf = minimal_database();
    let header = DatabaseHeader::parse(&buf).unwrap();
    let page = SchemaPage::new(header, buf).unwrap();
    let offsets = page.get_cell_offsets().unwrap();
    assert_eq!(offsets, vec![500]);
    // the cell decoder reduces a page-1 pointer by the 100-byte header
    assert_eq!(cell_header_offset(108, true), Ok(8));
    assert_eq!(cell_header_offset(108, false), Ok(108));
}

#[test]
fn data_page_subtracts_header_on_page_one() {
    // synthetic page-1 buffer seen through the data-page path: the stored
    // offset 108 decodes at 108 - 100 = 8
    let mut buf = vec![0u8; 512];
    buf[0] = 0x0D;
    buf[3] = 0x00;
    buf[4] = 0x01;
    // cell at byte 8: payload 3, row id 1, record: one 8-bit integer 7
    let cell: [u8; 7] = [3, 1, 3, 1, 1, 7, 0];
    buf[8..15].copy_from_slice(&cell);
    let page = DataPage::new(1, buf).unwrap();
    let cell = page.get_cell_content(108).unwrap();
    assert_eq!(cell.row_id, 1);
    match &cell.record {
        RecordType::DataRecord(rec) => {
            assert_eq!(rec.values.len(), 2);
            assert_eq!(rec.values[0], SqliteValue::Integer(7));
        },
        _ => panic!("expected a data record"),
    }
}

#[test]
fn end_to_end_single_page() {
    let buf = minimal_database();
    let header = DatabaseHeader::parse(&buf).unwrap();
    let page = SchemaPage::new(header, buf).unwrap();
    assert_eq!(page.page_header.page_type, 0x0D);
    assert_eq!(page.page_header.num_cells, 1);
    let cells = page.get_cell_contents().unwrap();
    assert_eq!(cells.len(), 1);
    assert_eq!(cells[0].record_size, 10);
    assert_eq!(cells[0].row_id, 1);
    let records = page.get_table_data().unwrap();
    assert_eq!(records.len(), 1);
    assert_eq!(records[0].values, vec![
        SqliteValue::Integer(1),
        SqliteValue::Text("apples".to_string()),
    ]);
}

#[test]
fn corrupt_page_never_yields_short_text() {
    let mut buf = minimal_database();
    buf.truncate(buf.len() - 3);
    let header = DatabaseHeader::parse(&buf).unwrap();
    let page = SchemaPage::new(header, buf).unwrap();
    let err = page.get_cell_contents().err().expect("truncated text must fail");
    assert!(err == DecodeError::TruncatedInput || err == DecodeError::InvalidUtf8);
}

#[test]
fn decoding_a_page_twice_matches() {
    let buf = minimal_database();
    let header = DatabaseHeader::parse(&buf).unwrap();
    let page = SchemaPage::new(header, buf).unwrap();
    let once = page.get_table_data().unwrap();
    let twice = page.get_table_data().unwrap();
    assert_eq!(once.len(), twice.len());
    for (a, b) in once.iter().zip(twice.iter()) {
        assert_eq!(a.header_size, b.header_size);
        assert_eq!(a.serial_codes, b.serial_codes);
        assert_eq!(a.values, b.values);
    }
}

#[test]
fn data_page_plain_offsets() {
    let mut buf = vec![0u8; 64];
    buf[0] = 0x0D;
    buf[4] = 0x01; // one cell
    buf[8] = 0x00;
    buf[9] = 0x10; // pointer to offset 16
    let cell: [u8; 7] = [3, 9, 3, 1, 1, 5, 0];
    buf[16..23].copy_from_slice(&cell);
    let page = DataPage::new(2, buf).unwrap();
    let offsets = page.get_cell_offsets().unwrap();
    assert_eq!(offsets, vec![16]);
    let cells = page.get_cell_contents().unwrap();
    assert_eq!(cells.len(), 1);
    assert_eq!(cells[0].row_id, 9);
}

#[test]
fn data_page_pointer_array_out_of_bounds() {
    let mut buf = vec![0u8; 9];
    buf[0] = 0x0D;
    buf[4] = 0x05; // five cells cannot fit their pointers
    let page = DataPage::new(2, buf).unwrap();
    assert_eq!(page.get_cell_offsets().err(), Some(DecodeError::TruncatedInput));
}

#[test]
fn page_offsets_and_bounds() {
    assert_eq!(page_byte_offset(1, 512), 0);
    assert_eq!(page_byte_offset(2, 512), 512);
    assert_eq!(page_byte_offset(3, 4096), 8192);
    assert_eq!(check_page_in_file(2, 512, 1024), Ok(512));
    assert_eq!(check_page_in_file(3, 512, 1024), Err(DecodeError::PageOutOfRange));
    assert_eq!(check_page_in_file(0, 512, 1024), Err(DecodeError::PageOutOfRange));
}

#[test]
fn short_buffers_are_rejected() {
    assert_eq!(DataPage::new(2, vec![0u8; 7]).err(), Some(DecodeError::TruncatedInput));
    let header = DatabaseHeader::parse(&minimal_database()).unwrap();
    assert_eq!(
        SchemaPage::new(header, vec![0u8; 100]).err(),
        Some(DecodeError::TruncatedInput)
    );
}
