//! Serial-type tags and the typed column values they decode to.
//!
//! A serial type identifies a value's storage class and, for blobs and text,
//! its length.  Integers narrower than 64 bits are sign-extended on decode.
//! A float is carried as its raw IEEE-754 big-endian bit pattern so that the
//! whole decode stays a function on plain values.

use vstd::prelude::*;
use vstd::arithmetic::power::{lemma_pow_adds, lemma_pow0, lemma_pow1, lemma_pow_positive, pow};
use crate::DecodeError;

verus! {

/// A decoded column value.  `Float` holds the 64-bit big-endian IEEE-754 bit
/// pattern read from the record; callers that need the number itself
/// reinterpret the bits.
#[derive(Debug, Clone, PartialEq)]
pub enum SqliteValue {
    Null,
    Integer(i64),
    Float(u64),
    Blob(Vec<u8>),
    Text(String),
}

/// Mathematical model of a [`SqliteValue`].
pub enum ValueModel {
    Null,
    Integer(int),
    Float(u64),
    Blob(Seq<u8>),
    Text(Seq<char>),
}

impl View for SqliteValue {
    type V = ValueModel;

    open spec fn view(&self) -> ValueModel {
        match self {
            SqliteValue::Null => ValueModel::Null,
            SqliteValue::Integer(i) => ValueModel::Integer(*i as int),
            SqliteValue::Float(bits) => ValueModel::Float(*bits),
            SqliteValue::Blob(b) => ValueModel::Blob(b@),
            SqliteValue::Text(t) => ValueModel::Text(t@),
        }
    }
}

/// One decoded value and the count of payload bytes it consumed.
#[derive(Debug, PartialEq)]
pub struct ParseResult {
    pub value: SqliteValue,
    pub bytes_consumed: usize,
}

/// Unsigned big-endian integer held in `s`.
pub open spec fn be_uint(s: Seq<u8>) -> int
    decreases s.len(),
{
    if s.len() == 0 {
        0
    } else {
        be_uint(s.drop_last()) * 256 + s.last()
    }
}

/// Two's-complement signed value of the big-endian bytes `s`: the sign bit is
/// bit 7 of the first byte.
pub open spec fn spec_signed_be(s: Seq<u8>) -> int {
    if s.len() > 0 && s[0] >= 128 {
        be_uint(s) - pow(256, s.len())
    } else {
        be_uint(s)
    }
}

/// Payload size of serial type `t`, or `None` for the reserved tags 10, 11.
pub open spec fn spec_serial_size(t: u64) -> Option<int> {
    if t == 0 || t == 8 || t == 9 {
        Some(0)
    } else if 1 <= t <= 4 {
        Some(t as int)
    } else if t == 5 {
        Some(6)
    } else if t == 6 || t == 7 {
        Some(8)
    } else if t == 10 || t == 11 {
        None
    } else if t % 2 == 0 {
        Some((t - 12) / 2)
    } else {
        Some((t - 13) / 2)
    }
}

/// The value serial type `t` decodes to at the head of `s`, with the payload
/// bytes it consumes; or the exact error.
pub open spec fn spec_decode_value(t: u64, s: Seq<u8>) -> Result<(ValueModel, int), DecodeError> {
    if t == 10 || t == 11 {
        Err(DecodeError::ReservedSerialType)
    } else if t == 0 {
        Ok((ValueModel::Null, 0))
    } else if t == 8 {
        Ok((ValueModel::Integer(0), 0))
    } else if t == 9 {
        Ok((ValueModel::Integer(1), 0))
    } else {
        let n = spec_serial_size(t).unwrap();
        if s.len() < n {
            Err(DecodeError::TruncatedInput)
        } else if 1 <= t <= 6 {
            Ok((ValueModel::Integer(spec_signed_be(s.subrange(0, n))), n))
        } else if t == 7 {
            Ok((ValueModel::Float(be_uint(s.subrange(0, 8)) as u64), 8))
        } else if t % 2 == 0 {
            Ok((ValueModel::Blob(s.subrange(0, n)), n))
        } else if vstd::utf8::valid_utf8(s.subrange(0, n)) {
            Ok((ValueModel::Text(vstd::utf8::decode_utf8(s.subrange(0, n))), n))
        } else {
            Err(DecodeError::InvalidUtf8)
        }
    }
}

/// Relies on `String::from_utf8`: it succeeds exactly on valid UTF-8 and
/// yields the characters that encoding describes, a function of the bytes
/// alone.
#[verifier::external_body]
fn bytes_to_text(bytes: &[u8]) -> (r: Option<String>)
    ensures
        r is Some <==> vstd::utf8::valid_utf8(bytes@),
        r is Some ==> r.unwrap()@ == vstd::utf8::decode_utf8(bytes@),
{
    match String::from_utf8(bytes.to_vec()) {
        Ok(s) => Some(s),
        Err(_) => None,
    }
}

/// Read `n` big-endian bytes from the head of `bytes` as an unsigned integer.
pub(crate) fn read_be_uint(bytes: &[u8], n: usize) -> (r: u64)
    requires
        n <= 8,
        n <= bytes@.len(),
    ensures
        r as int == be_uint(bytes@.subrange(0, n as int)),
{
    let mut acc: u64 = 0;
    let mut i: usize = 0;
    proof {
        lemma_pow256_values();
        lemma_be_uint_bound(bytes@.subrange(0, 0), 0x1_0000_0000_0000_0000);
        assert(bytes@.subrange(0, 0) =~= Seq::<u8>::empty());
        assert(be_uint(bytes@.subrange(0, 0)) == 0);
    }
    while i < n
        invariant
            0 <= i <= n <= 8,
            n <= bytes@.len(),
            acc as int == be_uint(bytes@.subrange(0, i as int)),
            acc < pow(256, i as nat),
        decreases n - i,
    {
        proof {
            lemma_pow256_values();
            vstd::arithmetic::power::lemma_pow_increases(256, i as nat, 7nat);
            assert(bytes@.subrange(0, i + 1).drop_last() =~= bytes@.subrange(0, i as int));
            assert(bytes@.subrange(0, i + 1).last() == bytes@[i as int]);
            lemma_pow_adds(256, i as nat, 1nat);
            lemma_pow1(256);
        }
        acc = acc * 256 + (bytes[i] as u64);
        i = i + 1;
    }
    acc
}

pub proof fn lemma_pow256_values()
    ensures
        pow(256, 0nat) == 1,
        pow(256, 1nat) == 0x100,
        pow(256, 2nat) == 0x1_0000,
        pow(256, 3nat) == 0x100_0000,
        pow(256, 4nat) == 0x1_0000_0000,
        pow(256, 5nat) == 0x100_0000_0000,
        pow(256, 6nat) == 0x1_0000_0000_0000,
        pow(256, 7nat) == 0x100_0000_0000_0000,
        pow(256, 8nat) == 0x1_0000_0000_0000_0000,
{
    reveal_with_fuel(pow, 9);
}

/// Splitting a big-endian byte string splits its value by place value.
pub proof fn lemma_be_uint_concat(a: Seq<u8>, b: Seq<u8>)
    ensures
        be_uint(a + b) == be_uint(a) * pow(256, b.len()) + be_uint(b),
    decreases b.len(),
{
    if b.len() == 0 {
        lemma_pow0(256);
        assert(a + b =~= a);
    } else {
        let c = b.drop_last();
        lemma_be_uint_concat(a, c);
        assert((a + b).drop_last() =~= a + c);
        assert((a + b).last() == b.last());
        assert(be_uint(a + b) == be_uint(a + c) * 256 + b.last());
        lemma_pow_adds(256, c.len(), 1nat);
        lemma_pow1(256);
        let pc = pow(256, c.len());
        assert((be_uint(a) * pc + be_uint(c)) * 256 == be_uint(a) * (pc * 256) + be_uint(c) * 256)
            by (nonlinear_arith);
    }
}

/// Copy a byte vector.
pub(crate) fn clone_bytes(v: &Vec<u8>) -> (r: Vec<u8>)
    ensures
        r@ == v@,
{
    let mut out: Vec<u8> = Vec::new();
    let mut i: usize = 0;
    while i < v.len()
        invariant
            0 <= i <= v@.len(),
            out@ =~= v@.subrange(0, i as int),
        decreases v@.len() - i,
    {
        out.push(v[i]);
        proof {
            assert(out@ =~= v@.subrange(0, i + 1));
        }
        i = i + 1;
    }
    proof {
        assert(out@ =~= v@);
    }
    out
}

/// Relies on `String::from_utf8` through [`bytes_to_text`]; succeeds exactly
/// on valid UTF-8.
pub(crate) fn bytes_to_string(bytes: &[u8]) -> (r: Option<String>)
    ensures
        r is Some <==> vstd::utf8::valid_utf8(bytes@),
        r is Some ==> r.unwrap()@ == vstd::utf8::decode_utf8(bytes@),
{
    bytes_to_text(bytes)
}

pub proof fn lemma_be_uint_bound(s: Seq<u8>, bound: int)
    requires
        bound >= pow(256, s.len()),
    ensures
        0 <= be_uint(s) < bound,
    decreases s.len(),
{
    lemma_pow_positive(256, s.len());
    if s.len() == 0 {
        lemma_pow0(256);
    } else {
        let t = s.drop_last();
        let p1 = pow(256, t.len());
        lemma_pow_adds(256, t.len(), 1nat);
        lemma_pow1(256);
        lemma_be_uint_bound(t, p1 as int);
        assert(be_uint(t) * 256 <= (p1 - 1) * 256) by (nonlinear_arith)
            requires be_uint(t) <= p1 - 1;
    }
}

/// Operations on serial-type tags.
pub struct SerialType;

impl SerialType {
    pub const NULL: u8 = 0;
    pub const INT8: u8 = 1;
    pub const INT16: u8 = 2;
    pub const INT24: u8 = 3;
    pub const INT32: u8 = 4;
    pub const INT48: u8 = 5;
    pub const INT64: u8 = 6;
    pub const FLOAT64: u8 = 7;
    pub const FALSE: u8 = 8;
    pub const TRUE: u8 = 9;
    pub const BLOB: u8 = 12;
    pub const TEXT: u8 = 13;

    /// Payload size for a one-byte serial type; the reserved tags 10 and 11
    /// report zero.
    pub fn get_size_for_type(serial_type: u8) -> (r: usize)
        ensures
            r as int == match spec_serial_size(serial_type as u64) {
                Some(n) => n,
                None => 0,
            },
    {
        if serial_type == 0 {
            0
        } else if serial_type <= 4 {
            serial_type as usize
        } else if serial_type == 5 {
            6
        } else if serial_type == 6 || serial_type == 7 {
            8
        } else if serial_type == 8 || serial_type == 9 {
            0
        } else if serial_type >= 12 {
            if serial_type % 2 == 0 {
                ((serial_type - 12) / 2) as usize
            } else {
                ((serial_type - 13) / 2) as usize
            }
        } else {
            0
        }
    }

    /// Storage-class name for a serial type.
    pub fn storage_class_name(serial_type: u8) -> (r: &'static str)
        ensures
            serial_type == 0 ==> r@ == "NULL"@,
            1 <= serial_type <= 6 ==> r@ == "INTEGER"@,
            serial_type == 7 ==> r@ == "REAL"@,
            serial_type == 8 || serial_type == 9 ==> r@ == "BOOLEAN"@,
            serial_type >= 12 && serial_type % 2 == 0 ==> r@ == "BLOB"@,
            serial_type >= 13 && serial_type % 2 == 1 ==> r@ == "TEXT"@,
            serial_type == 10 || serial_type == 11 ==> r@ == "UNKNOWN"@,
    {
        if serial_type == 0 {
            "NULL"
        } else if serial_type <= 6 {
            "INTEGER"
        } else if serial_type == 7 {
            "REAL"
        } else if serial_type == 8 || serial_type == 9 {
            "BOOLEAN"
        } else if serial_type >= 12 && serial_type % 2 == 0 {
            "BLOB"
        } else if serial_type >= 13 && serial_type % 2 == 1 {
            "TEXT"
        } else {
            "UNKNOWN"
        }
    }
}

/// Decode the value tagged `serial_type` from the head of `bytes`.
///
/// Exactly the closed grammar: null, sign-extended integers of 1, 2, 3, 4, 6
/// or 8 bytes, a float's bit pattern, the constants 0 and 1, and
/// length-tagged blobs and text.
pub fn parse_value(serial_type: u64, bytes: &[u8]) -> (r: Result<ParseResult, DecodeError>)
    ensures
        match r {
            Ok(pr) => {
                &&& spec_decode_value(serial_type, bytes@) == Ok::<(ValueModel, int), DecodeError>(
                    (pr.value@, pr.bytes_consumed as int),
                )
                &&& pr.bytes_consumed <= bytes@.len()
            },
            Err(e) => spec_decode_value(serial_type, bytes@) == Err::<(ValueModel, int), DecodeError>(e),
        },
{
    proof {
        lemma_pow256_values();
    }
    if serial_type == 0 {
        Ok(ParseResult { value: SqliteValue::Null, bytes_consumed: 0 })
    } else if serial_type == 8 {
        Ok(ParseResult { value: SqliteValue::Integer(0), bytes_consumed: 0 })
    } else if serial_type == 9 {
        Ok(ParseResult { value: SqliteValue::Integer(1), bytes_consumed: 0 })
    } else if serial_type == 10 || serial_type == 11 {
        Err(DecodeError::ReservedSerialType)
    } else if serial_type <= 6 {
        let n: usize = if serial_type <= 4 {
            serial_type as usize
        } else if serial_type == 5 {
            6
        } else {
            8
        };
        if bytes.len() < n {
            return Err(DecodeError::TruncatedInput);
        }
        let magnitude = read_be_uint(bytes, n);
        let ghost prefix = bytes@.subrange(0, n as int);
        proof {
            lemma_be_uint_bound(prefix, pow(256, n as nat) as int);
            assert(prefix[0] == bytes@[0]);
            if bytes@[0] >= 128 {
                lemma_be_uint_sign_bit(prefix);
            } else {
                lemma_be_uint_no_sign_bit(prefix);
            }
        }
        let negative = bytes[0] >= 128;
        let value: i64 = if negative {
            let offset: i128 = match n {
                1 => 0x100,
                2 => 0x1_0000,
                3 => 0x100_0000,
                4 => 0x1_0000_0000,
                6 => 0x1_0000_0000_0000,
                _ => 0x1_0000_0000_0000_0000,
            };
            (magnitude as i128 - offset) as i64
        } else {
            magnitude as i64
        };
        Ok(ParseResult { value: SqliteValue::Integer(value), bytes_consumed: n })
    } else if serial_type == 7 {
        if bytes.len() < 8 {
            return Err(DecodeError::TruncatedInput);
        }
        let bits = read_be_uint(bytes, 8);
        Ok(ParseResult { value: SqliteValue::Float(bits), bytes_consumed: 8 })
    } else {
        // blob or text: length from the tag
        let length64: u64 = if serial_type % 2 == 0 {
            (serial_type - 12) / 2
        } else {
            (serial_type - 13) / 2
        };
        if (bytes.len() as u64) < length64 {
            return Err(DecodeError::TruncatedInput);
        }
        let length = length64 as usize;
        let mut payload: Vec<u8> = Vec::new();
        let mut i: usize = 0;
        while i < length
            invariant
                0 <= i <= length,
                length <= bytes@.len(),
                payload@ =~= bytes@.subrange(0, i as int),
            decreases length - i,
        {
            payload.push(bytes[i]);
            proof {
                assert(payload@ =~= bytes@.subrange(0, i + 1));
            }
            i = i + 1;
        }
        proof {
            assert(payload@ =~= bytes@.subrange(0, length as int));
        }
        if serial_type % 2 == 0 {
            Ok(ParseResult { value: SqliteValue::Blob(payload), bytes_consumed: length })
        } else {
            match bytes_to_text(payload.as_slice()) {
                Some(text) => Ok(ParseResult {
                    value: SqliteValue::Text(text),
                    bytes_consumed: length,
                }),
                None => Err(DecodeError::InvalidUtf8),
            }
        }
    }
}

/// A big-endian value whose first byte has the high bit set reaches the top
/// half of its range.
proof fn lemma_be_uint_sign_bit(s: Seq<u8>)
    requires
        s.len() >= 1,
        s[0] >= 128,
    ensures
        be_uint(s) >= 128 * pow(256, (s.len() - 1) as nat),
        2 * (128 * pow(256, (s.len() - 1) as nat)) == pow(256, s.len()),
    decreases s.len(),
{
    lemma_pow_positive(256, (s.len() - 1) as nat);
    lemma_pow_adds(256, (s.len() - 1) as nat, 1nat);
    lemma_pow1(256);
    if s.len() == 1 {
        lemma_pow0(256);
        assert(s.drop_last() =~= Seq::<u8>::empty());
        assert(be_uint(s.drop_last()) == 0);
        assert(be_uint(s) == s[0]);
    } else {
        let t = s.drop_last();
        assert(t[0] == s[0]);
        lemma_be_uint_sign_bit(t);
        let p1 = pow(256, (t.len() - 1) as nat);
        assert(be_uint(t) * 256 >= (128 * p1) * 256) by (nonlinear_arith)
            requires be_uint(t) >= 128 * p1;
        lemma_pow_adds(256, (t.len() - 1) as nat, 1nat);
        assert(pow(256, (s.len() - 1) as nat) == p1 * 256);
        assert(be_uint(s) == be_uint(t) * 256 + s.last());
        assert((128 * p1) * 256 == 128 * (p1 * 256)) by (nonlinear_arith);
    }
}

/// A big-endian value whose first byte has the high bit clear stays in the
/// bottom half of its range.
proof fn lemma_be_uint_no_sign_bit(s: Seq<u8>)
    requires
        s.len() >= 1,
        s[0] < 128,
    ensures
        be_uint(s) < 128 * pow(256, (s.len() - 1) as nat),
    decreases s.len(),
{
    lemma_pow_positive(256, (s.len() - 1) as nat);
    if s.len() == 1 {
        lemma_pow0(256);
        assert(s.drop_last() =~= Seq::<u8>::empty());
        assert(be_uint(s.drop_last()) == 0);
        assert(be_uint(s) == s[0]);
    } else {
        let t = s.drop_last();
        assert(t[0] == s[0]);
        lemma_be_uint_no_sign_bit(t);
        let p1 = pow(256, (t.len() - 1) as nat);
        assert(be_uint(t) * 256 <= (128 * p1 - 1) * 256) by (nonlinear_arith)
            requires be_uint(t) <= 128 * p1 - 1;
        lemma_pow_adds(256, (t.len() - 1) as nat, 1nat);
        lemma_pow1(256);
        assert(pow(256, (s.len() - 1) as nat) == p1 * 256);
        assert(be_uint(s) == be_uint(t) * 256 + s.last());
        assert((128 * p1 - 1) * 256 == 128 * (p1 * 256) - 256) by (nonlinear_arith);
    }
}

} // verus!
