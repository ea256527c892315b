//! Cell decoding: a payload-size varint, a row-id varint, then the record
//! payload.

use vstd::prelude::*;
use vstd::slice::slice_subrange;
use crate::DecodeError;
use crate::record::{
    decode_record_parts, spec_decode_record, spec_varint_at, DataRecord, RecordModel, RecordType,
    SchemaColumns, SchemaRecord, SchemaRecordType,
};
use crate::varint::VarInt;

verus! {

/// Mathematical model of a decoded cell.
pub struct CellModel {
    pub record_size: u64,
    pub row_id: u64,
    pub record: RecordModel,
}

/// The cell starting at byte position `off` of `s`, or the exact error a
/// decoder reports for it.
pub open spec fn spec_decode_cell(s: Seq<u8>, off: int) -> Result<CellModel, DecodeError> {
    match spec_varint_at(s, off) {
        Err(e) => Err(e),
        Ok((record_size, n1)) => match spec_varint_at(s, off + n1) {
            Err(e) => Err(e),
            Ok((row_id, n2)) => match spec_decode_record(s, off + n1 + n2) {
                Err(e) => Err(e),
                Ok(rec) => Ok(CellModel { record_size, row_id, record: rec }),
            },
        },
    }
}

/// One cell of a page: its declared payload size, row id, and record.
#[derive(Debug)]
pub struct Cell {
    pub record_size: u64,
    pub row_id: u64,
    pub record: RecordType,
}

impl View for Cell {
    type V = CellModel;

    open spec fn view(&self) -> CellModel {
        CellModel { record_size: self.record_size, row_id: self.row_id, record: self.record@ }
    }
}

impl Cell {
    /// Decode the cell whose header starts at `cell_header_offset` in
    /// `raw_data`; the record becomes a schema record when `schema` is set
    /// and a data record otherwise.
    #[verifier::loop_isolation(false)]
    pub fn new(raw_data: &[u8], cell_header_offset: usize, schema: bool) -> (r: Result<
        Cell,
        DecodeError,
    >)
        ensures
            match r {
                Ok(c) => {
                    &&& spec_decode_cell(raw_data@, cell_header_offset as int) == Ok::<
                        CellModel,
                        DecodeError,
                    >(c@)
                    &&& (c.record is SchemaRecord <==> schema)
                },
                Err(e) => spec_decode_cell(raw_data@, cell_header_offset as int) == Err::<
                    CellModel,
                    DecodeError,
                >(e),
            },
    {
        let len = raw_data.len();
        if cell_header_offset > len {
            return Err(DecodeError::TruncatedInput);
        }
        let (record_size, n1) = match VarInt::decode(
            slice_subrange(raw_data, cell_header_offset, len),
        ) {
            Ok(p) => p,
            Err(e) => {
                return Err(e);
            },
        };
        let row_id_offset = cell_header_offset + n1;
        let (row_id, n2) = match VarInt::decode(slice_subrange(raw_data, row_id_offset, len)) {
            Ok(p) => p,
            Err(e) => {
                return Err(e);
            },
        };
        let record_offset = row_id_offset + n2;
        let (header_size, serial_codes, values) = match decode_record_parts(raw_data, record_offset) {
            Ok(parts) => parts,
            Err(e) => {
                return Err(e);
            },
        };
        let record = if schema {
            RecordType::SchemaRecord(SchemaRecord {
                header_size,
                serial_codes,
                values,
                columns: SchemaColumns {
                    record_type: SchemaRecordType::Table,
                    record_name: String::new(),
                    table_name: String::new(),
                    root_page: 0,
                    sql: String::new(),
                },
            })
        } else {
            RecordType::DataRecord(DataRecord { header_size, serial_codes, values })
        };
        Ok(Cell { record_size, row_id, record })
    }

    pub fn clone(&self) -> (r: Cell)
        ensures
            r@ == self@,
    {
        Cell { record_size: self.record_size, row_id: self.row_id, record: self.record.clone() }
    }
}

/// The in-page offset a page-1 cell pointer refers to: page 1 carries the
/// 100-byte file header, which the stored offset accounts for.
pub fn cell_header_offset(offset_in_page: u16, is_first_page: bool) -> (r: Result<
    usize,
    DecodeError,
>)
    ensures
        match r {
            Ok(off) => off == offset_in_page as int - (if is_first_page { 100int } else { 0int })
                && off >= 0,
            Err(e) => {
                &&& e == DecodeError::TruncatedInput
                &&& is_first_page
                &&& offset_in_page < 100
            },
        },
{
    if is_first_page {
        if offset_in_page < 100 {
            return Err(DecodeError::TruncatedInput);
        }
        Ok((offset_in_page - 100) as usize)
    } else {
        Ok(offset_in_page as usize)
    }
}

} // verus!
