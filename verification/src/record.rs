//! Record payload decoding: a header-length varint, one serial-type varint
//! per column, then the typed column values in the same order.
//!
//! The serial-type varints fill the header body exactly: decoding stops when
//! the bytes consumed reach the header length less the one byte the length
//! varint itself occupies, and a header whose varints overshoot that target
//! is corrupt.  Every decoded record carries as many values as serial-type
//! codes, value `i` decoded with code `i`.

use vstd::prelude::*;
use vstd::slice::slice_subrange;
use crate::DecodeError;
use crate::value::{parse_value, spec_decode_value, SqliteValue, ValueModel};
use crate::varint::{spec_decode_varint, VarInt};

verus! {

/// Mathematical model of a decoded record.
pub struct RecordModel {
    pub header_size: u64,
    pub serial_codes: Seq<u64>,
    pub values: Seq<ValueModel>,
}

/// Models of a sequence of decoded values.
pub open spec fn value_models(s: Seq<SqliteValue>) -> Seq<ValueModel> {
    s.map_values(|v: SqliteValue| v@)
}

/// The varint at byte position `pos` of `s`.
pub open spec fn spec_varint_at(s: Seq<u8>, pos: int) -> Result<(u64, int), DecodeError> {
    if 0 <= pos <= s.len() {
        spec_decode_varint(s.subrange(pos, s.len() as int))
    } else {
        Err(DecodeError::TruncatedInput)
    }
}

/// Serial-type codes packed back-to-back starting at `pos`, spanning exactly
/// `remaining` bytes; the position after them comes second.
pub open spec fn spec_decode_serials(s: Seq<u8>, pos: int, remaining: int) -> Result<
    (Seq<u64>, int),
    DecodeError,
>
    decreases remaining,
{
    if remaining <= 0 {
        Ok((Seq::empty(), pos))
    } else {
        match spec_varint_at(s, pos) {
            Err(e) => Err(e),
            Ok((v, n)) => if !(1 <= n <= remaining) {
                Err(DecodeError::TruncatedInput)
            } else {
                match spec_decode_serials(s, pos + n, remaining - n) {
                    Err(e) => Err(e),
                    Ok((rest, end)) => Ok((seq![v] + rest, end)),
                }
            },
        }
    }
}

/// Values for the given serial-type codes, decoded in order from `pos`; the
/// position after them comes second.
pub open spec fn spec_decode_values(s: Seq<u8>, pos: int, codes: Seq<u64>) -> Result<
    (Seq<ValueModel>, int),
    DecodeError,
>
    decreases codes.len(),
{
    if codes.len() == 0 {
        Ok((Seq::empty(), pos))
    } else if !(0 <= pos <= s.len()) {
        Err(DecodeError::TruncatedInput)
    } else {
        match spec_decode_value(codes[0], s.subrange(pos, s.len() as int)) {
            Err(e) => Err(e),
            Ok((vm, used)) => match spec_decode_values(s, pos + used, codes.drop_first()) {
                Err(e) => Err(e),
                Ok((rest, end)) => Ok((seq![vm] + rest, end)),
            },
        }
    }
}

/// The record starting at byte position `pos` of `s`, or the exact error a
/// decoder reports for it.
pub open spec fn spec_decode_record(s: Seq<u8>, pos: int) -> Result<RecordModel, DecodeError> {
    match spec_varint_at(s, pos) {
        Err(e) => Err(e),
        Ok((h, hb)) => if h == 0 {
            Err(DecodeError::TruncatedInput)
        } else {
            match spec_decode_serials(s, pos + hb, h - 1) {
                Err(e) => Err(e),
                Ok((codes, after_header)) => match spec_decode_values(s, after_header, codes) {
                    Err(e) => Err(e),
                    Ok((vals, _end)) => Ok(
                        RecordModel { header_size: h, serial_codes: codes, values: vals },
                    ),
                },
            }
        },
    }
}

/// Every record the spec admits carries one value per serial-type code.
pub proof fn lemma_record_parallel_arrays(s: Seq<u8>, pos: int)
    requires
        spec_decode_record(s, pos) is Ok,
    ensures
        spec_decode_record(s, pos).unwrap().serial_codes.len() == spec_decode_record(
            s,
            pos,
        ).unwrap().values.len(),
{
    let h = spec_varint_at(s, pos).unwrap().0;
    let hb = spec_varint_at(s, pos).unwrap().1;
    let (codes, after_header) = spec_decode_serials(s, pos + hb, h - 1).unwrap();
    lemma_values_parallel(s, after_header, codes);
}

proof fn lemma_values_parallel(s: Seq<u8>, pos: int, codes: Seq<u64>)
    requires
        spec_decode_values(s, pos, codes) is Ok,
    ensures
        spec_decode_values(s, pos, codes).unwrap().0.len() == codes.len(),
    decreases codes.len(),
{
    if codes.len() > 0 {
        let used = spec_decode_value(codes[0], s.subrange(pos, s.len() as int)).unwrap().1;
        lemma_values_parallel(s, pos + used, codes.drop_first());
    }
}

/// Decoding a record is a function of the buffer alone: two successful
/// decodes at one position agree field for field, so decoding the same
/// bytes twice yields structurally equal results.
pub proof fn lemma_record_decode_deterministic(s: Seq<u8>, pos: int, a: RecordModel, b: RecordModel)
    requires
        spec_decode_record(s, pos) == Ok::<RecordModel, DecodeError>(a),
        spec_decode_record(s, pos) == Ok::<RecordModel, DecodeError>(b),
    ensures
        a == b,
{
}

/// Decode a record's header and values starting at `offset`: header size,
/// serial-type codes, and the column values in code order.
#[verifier::loop_isolation(false)]
pub fn decode_record_parts(raw_data: &[u8], offset: usize) -> (r: Result<
    (u64, Vec<u64>, Vec<SqliteValue>),
    DecodeError,
>)
    ensures
        match r {
            Ok((h, codes, vals)) => {
                &&& spec_decode_record(raw_data@, offset as int) matches Ok(m)
                &&& m.header_size == h
                &&& m.serial_codes == codes@
                &&& m.values == value_models(vals@)
                &&& codes@.len() == vals@.len()
            },
            Err(e) => spec_decode_record(raw_data@, offset as int) == Err::<RecordModel, DecodeError>(e),
        },
{
    let len = raw_data.len();
    if offset > len {
        return Err(DecodeError::TruncatedInput);
    }
    let (header_size, hb) = match VarInt::decode(slice_subrange(raw_data, offset, len)) {
        Ok(p) => p,
        Err(e) => {
            return Err(e);
        },
    };
    if header_size == 0 {
        return Err(DecodeError::TruncatedInput);
    }
    let target: u64 = header_size - 1;
    let ghost pos0: int = offset + hb;
    let mut pos: usize = offset + hb;
    let mut used: u64 = 0;
    let mut serial_codes: Vec<u64> = Vec::new();
    while used < target
        invariant
            len == raw_data@.len(),
            0 <= pos <= len,
            used <= target,
            pos == pos0 + used,
            match spec_decode_serials(raw_data@, pos as int, (target - used) as int) {
                Ok((rest, end)) => spec_decode_serials(raw_data@, pos0, target as int)
                    == Ok::<(Seq<u64>, int), DecodeError>((serial_codes@ + rest, end)),
                Err(e) => spec_decode_serials(raw_data@, pos0, target as int)
                    == Err::<(Seq<u64>, int), DecodeError>(e),
            },
        decreases target - used,
    {
        let ghost rem: int = (target - used) as int;
        let (code, n) = match VarInt::decode(slice_subrange(raw_data, pos, len)) {
            Ok(p) => p,
            Err(e) => {
                return Err(e);
            },
        };
        if (n as u64) > target - used {
            return Err(DecodeError::TruncatedInput);
        }
        let ghost old_codes = serial_codes@;
        serial_codes.push(code);
        pos = pos + n;
        used = used + (n as u64);
        proof {
            match spec_decode_serials(raw_data@, pos as int, (target - used) as int) {
                Ok((rest, end)) => {
                    assert(old_codes + (seq![code] + rest) =~= serial_codes@ + rest);
                },
                Err(e) => {},
            }
        }
    }
    let ghost after_header: int = pos as int;
    proof {
        assert(spec_decode_serials(raw_data@, pos as int, 0) == Ok::<(Seq<u64>, int), DecodeError>((
            Seq::empty(),
            pos as int,
        )));
        assert(serial_codes@ + Seq::<u64>::empty() =~= serial_codes@);
    }
    let n_codes = serial_codes.len();
    let mut values: Vec<SqliteValue> = Vec::new();
    let mut i: usize = 0;
    proof {
        assert(serial_codes@.skip(0) =~= serial_codes@);
        match spec_decode_values(raw_data@, pos as int, serial_codes@) {
            Ok((rest, end)) => {
                assert(value_models(values@) + rest =~= rest);
            },
            Err(e) => {},
        }
    }
    while i < n_codes
        invariant
            len == raw_data@.len(),
            0 <= pos <= len,
            0 <= i <= n_codes,
            n_codes == serial_codes@.len(),
            values@.len() == i,
            spec_decode_serials(raw_data@, pos0, target as int) == Ok::<(Seq<u64>, int), DecodeError>((
                serial_codes@,
                after_header,
            )),
            match spec_decode_values(raw_data@, pos as int, serial_codes@.skip(i as int)) {
                Ok((rest, end)) => spec_decode_values(raw_data@, after_header, serial_codes@)
                    == Ok::<(Seq<ValueModel>, int), DecodeError>((value_models(values@) + rest, end)),
                Err(e) => spec_decode_values(raw_data@, after_header, serial_codes@)
                    == Err::<(Seq<ValueModel>, int), DecodeError>(e),
            },
        decreases n_codes - i,
    {
        let code = serial_codes[i];
        proof {
            assert(serial_codes@.skip(i as int)[0] == code);
        }
        let pr = match parse_value(code, slice_subrange(raw_data, pos, len)) {
            Ok(pr) => pr,
            Err(e) => {
                return Err(e);
            },
        };
        let ghost old_values = values@;
        values.push(pr.value);
        pos = pos + pr.bytes_consumed;
        i = i + 1;
        proof {
            assert(serial_codes@.skip(i - 1).drop_first() =~= serial_codes@.skip(i as int));
            assert(value_models(values@) =~= value_models(old_values).push(pr.value@));
            match spec_decode_values(raw_data@, pos as int, serial_codes@.skip(i as int)) {
                Ok((rest, end)) => {
                    assert(value_models(old_values) + (seq![pr.value@] + rest) =~= value_models(
                        values@,
                    ) + rest);
                },
                Err(e) => {},
            }
        }
    }
    proof {
        assert(serial_codes@.skip(n_codes as int) =~= Seq::<u64>::empty());
        assert(value_models(values@) + Seq::<ValueModel>::empty() =~= value_models(values@));
    }
    Ok((header_size, serial_codes, values))
}

/// Kinds of schema object a schema record can describe.
#[derive(Debug, PartialEq, Eq, Structural)]
pub enum SchemaRecordType {
    Table,
    Index,
    View,
    Trigger,
}

impl SchemaRecordType {
    /// The keyword the schema table stores for this kind of object.
    pub fn as_str(&self) -> (r: &'static str)
        ensures
            *self is Table ==> r@ == "table"@,
            *self is Index ==> r@ == "index"@,
            *self is View ==> r@ == "view"@,
            *self is Trigger ==> r@ == "trigger"@,
    {
        match self {
            SchemaRecordType::Table => "table",
            SchemaRecordType::Index => "index",
            SchemaRecordType::View => "view",
            SchemaRecordType::Trigger => "trigger",
        }
    }

    pub fn clone(&self) -> (r: SchemaRecordType)
        ensures
            r == *self,
    {
        match self {
            SchemaRecordType::Table => SchemaRecordType::Table,
            SchemaRecordType::Index => SchemaRecordType::Index,
            SchemaRecordType::View => SchemaRecordType::View,
            SchemaRecordType::Trigger => SchemaRecordType::Trigger,
        }
    }
}

/// The five well-known columns of a schema record.
#[derive(Debug)]
pub struct SchemaColumns {
    pub record_type: SchemaRecordType,
    pub record_name: String,
    pub table_name: String,
    pub root_page: i8,
    pub sql: String,
}

impl SchemaColumns {
    pub fn clone(&self) -> (r: SchemaColumns)
        ensures
            r.record_type == self.record_type,
            r.record_name@ == self.record_name@,
            r.table_name@ == self.table_name@,
            r.root_page == self.root_page,
            r.sql@ == self.sql@,
    {
        SchemaColumns {
            record_type: self.record_type.clone(),
            record_name: self.record_name.clone(),
            table_name: self.table_name.clone(),
            root_page: self.root_page,
            sql: self.sql.clone(),
        }
    }
}

/// A record from an ordinary data page.
#[derive(Debug, PartialEq)]
pub struct DataRecord {
    pub header_size: u64,
    pub serial_codes: Vec<u64>,
    pub values: Vec<SqliteValue>,
}

impl View for DataRecord {
    type V = RecordModel;

    open spec fn view(&self) -> RecordModel {
        RecordModel {
            header_size: self.header_size,
            serial_codes: self.serial_codes@,
            values: value_models(self.values@),
        }
    }
}

impl DataRecord {
    /// Decode the record starting at `offset` in `raw_data`.
    pub fn new(raw_data: &[u8], offset: usize) -> (r: Result<DataRecord, DecodeError>)
        ensures
            match r {
                Ok(rec) => {
                    &&& spec_decode_record(raw_data@, offset as int) matches Ok(m)
                    &&& m.header_size == rec@.header_size
                    &&& m.serial_codes == rec@.serial_codes
                    &&& m.values == rec@.values
                    &&& rec.serial_codes@.len() == rec.values@.len()
                },
                Err(e) => spec_decode_record(raw_data@, offset as int) == Err::<RecordModel, DecodeError>(e),
            },
    {
        let (header_size, serial_codes, values) = decode_record_parts(raw_data, offset)?;
        Ok(DataRecord { header_size, serial_codes, values })
    }

    pub fn clone(&self) -> (r: DataRecord)
        ensures
            r@ == self@,
            r.serial_codes@ == self.serial_codes@,
    {
        let cloned_values = clone_values(&self.values);
        DataRecord {
            header_size: self.header_size,
            serial_codes: clone_u64s(&self.serial_codes),
            values: cloned_values,
        }
    }
}

/// A record from the schema page.  The well-known columns are carried
/// alongside the raw decoded values; populating them from the values is a
/// separate concern and they start out blank.
#[derive(Debug)]
pub struct SchemaRecord {
    pub header_size: u64,
    pub serial_codes: Vec<u64>,
    pub values: Vec<SqliteValue>,
    pub columns: SchemaColumns,
}

impl View for SchemaRecord {
    type V = RecordModel;

    open spec fn view(&self) -> RecordModel {
        RecordModel {
            header_size: self.header_size,
            serial_codes: self.serial_codes@,
            values: value_models(self.values@),
        }
    }
}

impl SchemaRecord {
    /// Decode the record starting at `offset` in `raw_data`; the well-known
    /// columns start out blank.
    pub fn new(raw_data: &[u8], offset: usize) -> (r: Result<SchemaRecord, DecodeError>)
        ensures
            match r {
                Ok(rec) => {
                    &&& spec_decode_record(raw_data@, offset as int) matches Ok(m)
                    &&& m.header_size == rec@.header_size
                    &&& m.serial_codes == rec@.serial_codes
                    &&& m.values == rec@.values
                    &&& rec.serial_codes@.len() == rec.values@.len()
                    &&& rec.columns.record_type is Table
                    &&& rec.columns.record_name@ == Seq::<char>::empty()
                    &&& rec.columns.table_name@ == Seq::<char>::empty()
                    &&& rec.columns.root_page == 0
                    &&& rec.columns.sql@ == Seq::<char>::empty()
                },
                Err(e) => spec_decode_record(raw_data@, offset as int) == Err::<RecordModel, DecodeError>(e),
            },
    {
        let (header_size, serial_codes, values) = decode_record_parts(raw_data, offset)?;
        Ok(SchemaRecord {
            header_size,
            serial_codes,
            values,
            columns: SchemaColumns {
                record_type: SchemaRecordType::Table,
                record_name: String::new(),
                table_name: String::new(),
                root_page: 0,
                sql: String::new(),
            },
        })
    }

    pub fn clone(&self) -> (r: SchemaRecord)
        ensures
            r@ == self@,
            r.serial_codes@ == self.serial_codes@,
            r.columns.record_type == self.columns.record_type,
            r.columns.record_name@ == self.columns.record_name@,
            r.columns.table_name@ == self.columns.table_name@,
            r.columns.root_page == self.columns.root_page,
            r.columns.sql@ == self.columns.sql@,
    {
        SchemaRecord {
            header_size: self.header_size,
            serial_codes: clone_u64s(&self.serial_codes),
            values: clone_values(&self.values),
            columns: self.columns.clone(),
        }
    }
}

/// Either flavor of record a cell can hold.
#[derive(Debug)]
pub enum RecordType {
    SchemaRecord(SchemaRecord),
    DataRecord(DataRecord),
}

impl View for RecordType {
    type V = RecordModel;

    open spec fn view(&self) -> RecordModel {
        match self {
            RecordType::SchemaRecord(r) => r@,
            RecordType::DataRecord(r) => r@,
        }
    }
}

impl RecordType {
    pub fn clone(&self) -> (r: RecordType)
        ensures
            r@ == self@,
            r is SchemaRecord <==> self is SchemaRecord,
    {
        match self {
            RecordType::SchemaRecord(rec) => RecordType::SchemaRecord(rec.clone()),
            RecordType::DataRecord(rec) => RecordType::DataRecord(rec.clone()),
        }
    }
}

/// Copy a vector of serial codes.
fn clone_u64s(v: &Vec<u64>) -> (r: Vec<u64>)
    ensures
        r@ == v@,
{
    let mut out: Vec<u64> = Vec::new();
    let mut i: usize = 0;
    while i < v.len()
        invariant
            0 <= i <= v@.len(),
            out@ =~= v@.subrange(0, i as int),
        decreases v@.len() - i,
    {
        out.push(v[i]);
        proof {
            assert(out@ =~= v@.subrange(0, i + 1));
        }
        i = i + 1;
    }
    proof {
        assert(out@ =~= v@);
    }
    out
}

/// Copy a vector of decoded values, preserving each value's model.
fn clone_values(v: &Vec<SqliteValue>) -> (r: Vec<SqliteValue>)
    ensures
        r@.len() == v@.len(),
        value_models(r@) == value_models(v@),
{
    let mut out: Vec<SqliteValue> = Vec::new();
    let mut i: usize = 0;
    while i < v.len()
        invariant
            0 <= i <= v@.len(),
            out@.len() == i,
            value_models(out@) =~= value_models(v@).subrange(0, i as int),
        decreases v@.len() - i,
    {
        let copy = clone_value(&v[i]);
        out.push(copy);
        proof {
            assert(value_models(out@) =~= value_models(v@).subrange(0, i + 1));
        }
        i = i + 1;
    }
    proof {
        assert(value_models(out@) =~= value_models(v@));
    }
    out
}

/// Copy one decoded value, preserving its model.
fn clone_value(v: &SqliteValue) -> (r: SqliteValue)
    ensures
        r@ == v@,
{
    match v {
        SqliteValue::Null => SqliteValue::Null,
        SqliteValue::Integer(i) => SqliteValue::Integer(*i),
        SqliteValue::Float(bits) => SqliteValue::Float(*bits),
        SqliteValue::Blob(b) => {
            let mut out: Vec<u8> = Vec::new();
            let mut i: usize = 0;
            while i < b.len()
                invariant
                    0 <= i <= b@.len(),
                    out@ =~= b@.subrange(0, i as int),
                decreases b@.len() - i,
            {
                out.push(b[i]);
                proof {
                    assert(out@ =~= b@.subrange(0, i + 1));
                }
                i = i + 1;
            }
            proof {
                assert(out@ =~= b@);
            }
            SqliteValue::Blob(out)
        },
        SqliteValue::Text(t) => SqliteValue::Text(t.clone()),
    }
}

} // verus!
