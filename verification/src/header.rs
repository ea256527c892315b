//! The fixed 100-byte file header: magic signature, page size, and the run
//! of 32-bit big-endian counters that describe the database.

use vstd::prelude::*;
use vstd::slice::slice_subrange;
use crate::DecodeError;
use crate::value::{
    be_uint, bytes_to_string, clone_bytes, lemma_be_uint_bound, lemma_be_uint_concat,
    lemma_pow256_values, read_be_uint,
};

verus! {

/// The signature every well-formed database file starts with, as the
/// big-endian value of its 16 bytes.
pub const SQLITE_MAGIC: u128 = 0x53514c69746520666f726d6174203300;

/// Big-endian 16-bit value at byte offset `i` of `s`.
pub open spec fn be16_at(s: Seq<u8>, i: int) -> int {
    be_uint(s.subrange(i, i + 2))
}

/// Big-endian 32-bit value at byte offset `i` of `s`.
pub open spec fn be32_at(s: Seq<u8>, i: int) -> int {
    be_uint(s.subrange(i, i + 4))
}

/// The parsed file header.  `raw_data` keeps the 100 bytes it was read from.
#[derive(Debug)]
pub struct DatabaseHeader {
    pub header_string: u128,
    pub page_size: u16,
    pub write_format_version: u8,
    pub read_format_version: u8,
    pub reserved_space: u8,
    pub max_embedded_payload_fraction: u8,
    pub min_embedded_payload_fraction: u8,
    pub leaf_payload_fraction: u8,
    pub file_change_counter: u32,
    pub database_size: u32,
    pub first_freelist_trunk_page: u32,
    pub total_freelist_pages: u32,
    pub schema_cookie: u32,
    pub schema_format: u32,
    pub default_page_cache_size: u32,
    pub largest_root_b_tree_page_number: u32,
    pub text_encoding: u32,
    pub user_version: u32,
    pub incremental_vacuum_mode: u32,
    pub application_id: u32,
    pub version_valid_for: u32,
    pub sqlite_version_number: u32,
    pub raw_data: Vec<u8>,
}

/// What a well-parsed header says of the bytes it came from.
pub open spec fn header_matches(h: DatabaseHeader, s: Seq<u8>) -> bool {
    &&& h.header_string == be_uint(s.subrange(0, 16))
    &&& h.page_size == be16_at(s, 16)
    &&& h.write_format_version == s[18]
    &&& h.read_format_version == s[19]
    &&& h.reserved_space == s[20]
    &&& h.max_embedded_payload_fraction == s[21]
    &&& h.min_embedded_payload_fraction == s[22]
    &&& h.leaf_payload_fraction == s[23]
    &&& h.file_change_counter == be32_at(s, 24)
    &&& h.database_size == be32_at(s, 28)
    &&& h.first_freelist_trunk_page == be32_at(s, 32)
    &&& h.total_freelist_pages == be32_at(s, 36)
    &&& h.schema_cookie == be32_at(s, 40)
    &&& h.schema_format == be32_at(s, 44)
    &&& h.default_page_cache_size == be32_at(s, 48)
    &&& h.largest_root_b_tree_page_number == be32_at(s, 52)
    &&& h.text_encoding == be32_at(s, 56)
    &&& h.user_version == be32_at(s, 60)
    &&& h.incremental_vacuum_mode == be32_at(s, 64)
    &&& h.application_id == be32_at(s, 68)
    &&& h.version_valid_for == be32_at(s, 72)
    &&& h.sqlite_version_number == be32_at(s, 92)
    &&& h.raw_data@ == s.subrange(0, 100)
}

impl DatabaseHeader {
    /// Parse the file header from the first 100 bytes of `bytes`.
    ///
    /// Fails with `TruncatedInput` when fewer than 100 bytes are supplied and
    /// with `InvalidMagic` when the signature does not match, and only then.
    pub fn parse(bytes: &[u8]) -> (r: Result<DatabaseHeader, DecodeError>)
        ensures
            match r {
                Ok(h) => {
                    &&& bytes@.len() >= 100
                    &&& be_uint(bytes@.subrange(0, 16)) == SQLITE_MAGIC
                    &&& header_matches(h, bytes@)
                },
                Err(DecodeError::TruncatedInput) => bytes@.len() < 100,
                Err(DecodeError::InvalidMagic) => {
                    &&& bytes@.len() >= 100
                    &&& be_uint(bytes@.subrange(0, 16)) != SQLITE_MAGIC
                },
                Err(_) => false,
            },
    {
        if bytes.len() < 100 {
            return Err(DecodeError::TruncatedInput);
        }
        proof {
            lemma_pow256_values();
        }
        let magic_hi = read_be_uint(slice_subrange(bytes, 0, 8), 8);
        let magic_lo = read_be_uint(slice_subrange(bytes, 8, 16), 8);
        proof {
            assert(bytes@.subrange(0, 8).subrange(0, 8) =~= bytes@.subrange(0, 8));
            assert(bytes@.subrange(8, 16).subrange(0, 8) =~= bytes@.subrange(8, 16));
            lemma_be_uint_bound(bytes@.subrange(8, 16), 0x1_0000_0000_0000_0000);
            lemma_be_uint_concat(bytes@.subrange(0, 8), bytes@.subrange(8, 16));
            assert(bytes@.subrange(0, 8) + bytes@.subrange(8, 16) =~= bytes@.subrange(0, 16));
        }
        let header_string: u128 = (magic_hi as u128) * 0x1_0000_0000_0000_0000 + (magic_lo as u128);
        if header_string != SQLITE_MAGIC {
            return Err(DecodeError::InvalidMagic);
        }
        let h = DatabaseHeader {
            header_string,
            page_size: read_be16(bytes, 16),
            write_format_version: bytes[18],
            read_format_version: bytes[19],
            reserved_space: bytes[20],
            max_embedded_payload_fraction: bytes[21],
            min_embedded_payload_fraction: bytes[22],
            leaf_payload_fraction: bytes[23],
            file_change_counter: read_be32(bytes, 24),
            database_size: read_be32(bytes, 28),
            first_freelist_trunk_page: read_be32(bytes, 32),
            total_freelist_pages: read_be32(bytes, 36),
            schema_cookie: read_be32(bytes, 40),
            schema_format: read_be32(bytes, 44),
            default_page_cache_size: read_be32(bytes, 48),
            largest_root_b_tree_page_number: read_be32(bytes, 52),
            text_encoding: read_be32(bytes, 56),
            user_version: read_be32(bytes, 60),
            incremental_vacuum_mode: read_be32(bytes, 64),
            application_id: read_be32(bytes, 68),
            version_valid_for: read_be32(bytes, 72),
            sqlite_version_number: read_be32(bytes, 92),
            raw_data: copy_prefix(bytes, 100),
        };
        Ok(h)
    }

    /// The page size in use: the stored sentinel `1` stands for 65536.
    pub fn real_page_size(&self) -> (r: u32)
        ensures
            r == if self.page_size == 1 { 65536int } else { self.page_size as int },
    {
        if self.page_size == 1 {
            65536
        } else {
            self.page_size as u32
        }
    }

    /// The raw header bytes as text; callers must know they hold valid UTF-8.
    pub fn as_str(&self) -> (r: String)
        requires
            vstd::utf8::valid_utf8(self.raw_data@),
        ensures
            r@ == vstd::utf8::decode_utf8(self.raw_data@),
    {
        match bytes_to_string(self.raw_data.as_slice()) {
            Some(s) => s,
            None => {
                proof {
                    assert(false);
                }
                String::new()
            },
        }
    }

    pub fn clone(&self) -> (r: DatabaseHeader)
        ensures
            r.header_string == self.header_string,
            r.page_size == self.page_size,
            r.raw_data@ == self.raw_data@,
            r.file_change_counter == self.file_change_counter,
            r.database_size == self.database_size,
            r.text_encoding == self.text_encoding,
            r.user_version == self.user_version,
            r.application_id == self.application_id,
            r.sqlite_version_number == self.sqlite_version_number,
    {
        DatabaseHeader {
            header_string: self.header_string,
            page_size: self.page_size,
            write_format_version: self.write_format_version,
            read_format_version: self.read_format_version,
            reserved_space: self.reserved_space,
            max_embedded_payload_fraction: self.max_embedded_payload_fraction,
            min_embedded_payload_fraction: self.min_embedded_payload_fraction,
            leaf_payload_fraction: self.leaf_payload_fraction,
            file_change_counter: self.file_change_counter,
            database_size: self.database_size,
            first_freelist_trunk_page: self.first_freelist_trunk_page,
            total_freelist_pages: self.total_freelist_pages,
            schema_cookie: self.schema_cookie,
            schema_format: self.schema_format,
            default_page_cache_size: self.default_page_cache_size,
            largest_root_b_tree_page_number: self.largest_root_b_tree_page_number,
            text_encoding: self.text_encoding,
            user_version: self.user_version,
            incremental_vacuum_mode: self.incremental_vacuum_mode,
            application_id: self.application_id,
            version_valid_for: self.version_valid_for,
            sqlite_version_number: self.sqlite_version_number,
            raw_data: clone_bytes(&self.raw_data),
        }
    }
}

/// Read the big-endian 16-bit value at byte offset `off`.
pub fn read_be16(bytes: &[u8], off: usize) -> (r: u16)
    requires
        off + 2 <= bytes@.len(),
    ensures
        r == be16_at(bytes@, off as int),
{
    proof {
        lemma_pow256_values();
        lemma_be_uint_bound(bytes@.subrange(off as int, off + 2), 0x1_0000);
    }
    let l = bytes.len();
    let v = read_be_uint(slice_subrange(bytes, off, l), 2);
    proof {
        assert(bytes@.subrange(off as int, l as int).subrange(0, 2) =~= bytes@.subrange(
            off as int,
            off + 2,
        ));
    }
    v as u16
}

/// Read the big-endian 32-bit value at byte offset `off`.
pub fn read_be32(bytes: &[u8], off: usize) -> (r: u32)
    requires
        off + 4 <= bytes@.len(),
    ensures
        r == be32_at(bytes@, off as int),
{
    proof {
        lemma_pow256_values();
        lemma_be_uint_bound(bytes@.subrange(off as int, off + 4), 0x1_0000_0000);
    }
    let l = bytes.len();
    let v = read_be_uint(slice_subrange(bytes, off, l), 4);
    proof {
        assert(bytes@.subrange(off as int, l as int).subrange(0, 4) =~= bytes@.subrange(
            off as int,
            off + 4,
        ));
    }
    v as u32
}

/// Copy the first `n` bytes of `bytes` into an owned vector.
pub fn copy_prefix(bytes: &[u8], n: usize) -> (r: Vec<u8>)
    requires
        n <= bytes@.len(),
    ensures
        r@ == bytes@.subrange(0, n as int),
{
    let mut out: Vec<u8> = Vec::new();
    let mut i: usize = 0;
    while i < n
        invariant
            0 <= i <= n <= bytes@.len(),
            out@ =~= bytes@.subrange(0, i as int),
        decreases n - i,
    {
        out.push(bytes[i]);
        proof {
            assert(out@ =~= bytes@.subrange(0, i + 1));
        }
        i = i + 1;
    }
    proof {
        assert(out@ =~= bytes@.subrange(0, n as int));
    }
    out
}

} // verus!
