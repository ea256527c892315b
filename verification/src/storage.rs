//! Storage-layer bookkeeping: page-type tags, format constants, and the
//! low-level page reader's parsed state.
//!
//! The reader here never touches a file: callers read the bytes and hand
//! them in, and everything below is a function of those bytes.

use vstd::prelude::*;
use crate::header::{be16_at, DatabaseHeader};
use crate::DecodeError;

verus! {

/// Size in bytes of a b-tree page header.
pub const PAGE_HEADER_SIZE: usize = 8;

/// Size in bytes of one cell-pointer-array entry.
pub const CELL_POINTER_SIZE: usize = 2;

/// Size in bytes of an overflow page's leading next-page pointer.
pub const OVERFLOW_PAGE_HEADER: usize = 4;

/// Size in bytes of a freelist leaf entry.
pub const FREELIST_LEAF_SIZE: usize = 4;

pub const MIN_EMBEDDED_FRAC: u8 = 32;

pub const LEAF_PAYLOAD_FRAC: u8 = 32;

/// Failures the storage layer reports.
#[derive(Debug, Clone, PartialEq)]
pub enum StorageError {
    IoError(String),
    InvalidFormat(String),
    CorruptPage(String),
    PageNotFound(usize),
    OutOfBounds(String),
    HeaderMismatch(String),
}

/// Page types as the page-type byte encodes them.
#[derive(Debug, Clone, Copy, PartialEq, Eq, Structural)]
pub enum PageType {
    InteriorIndex,
    InteriorTable,
    LeafIndex,
    LeafTable,
    Overflow,
    FreelistTrunk,
    FreelistLeaf,
    Unknown,
}

/// The page type a type byte stands for.
pub open spec fn spec_page_type_of(value: u8) -> PageType {
    if value == 0x02 {
        PageType::InteriorIndex
    } else if value == 0x05 {
        PageType::InteriorTable
    } else if value == 0x0A {
        PageType::LeafIndex
    } else if value == 0x0D {
        PageType::LeafTable
    } else if value == 0xFF {
        PageType::Overflow
    } else if value == 0xFE {
        PageType::FreelistTrunk
    } else if value == 0xFD {
        PageType::FreelistLeaf
    } else {
        PageType::Unknown
    }
}

impl From<u8> for PageType {
    fn from(value: u8) -> (r: Self)
        ensures
            r == spec_page_type_of(value),
    {
        if value == 0x02 {
            PageType::InteriorIndex
        } else if value == 0x05 {
            PageType::InteriorTable
        } else if value == 0x0A {
            PageType::LeafIndex
        } else if value == 0x0D {
            PageType::LeafTable
        } else if value == 0xFF {
            PageType::Overflow
        } else if value == 0xFE {
            PageType::FreelistTrunk
        } else if value == 0xFD {
            PageType::FreelistLeaf
        } else {
            PageType::Unknown
        }
    }
}

impl vstd::std_specs::convert::FromSpecImpl<u8> for PageType {
    open spec fn obeys_from_spec() -> bool {
        true
    }

    open spec fn from_spec(v: u8) -> Self {
        spec_page_type_of(v)
    }
}

/// Low-level page format control flags.
pub struct PageFlags {
    pub encoding_format: u8,
    pub has_overflow: bool,
    pub leaf_page: bool,
    pub uses_freelist: bool,
    pub btree_version: u8,
}

/// File format generations.
pub enum FileFormatVersion {
    Legacy,
    WAL,
    Incremental,
    Modern,
}

/// A page's raw bytes with the quick summary the reader extracts from them.
#[derive(Debug, Clone)]
pub struct PageData {
    pub page_number: usize,
    pub data: Vec<u8>,
    pub page_type: PageType,
    pub cell_count: usize,
    pub free_offset: usize,
}

/// Parsed header state for one database file, fed with bytes by the caller.
pub struct BinaryPageReader {
    file_path: String,
    page_size: usize,
    encoding: u32,
    header_bytes: Vec<u8>,
}

impl BinaryPageReader {
    pub closed spec fn spec_file_path(&self) -> Seq<char> {
        self.file_path@
    }

    pub closed spec fn spec_page_size(&self) -> int {
        self.page_size as int
    }

    pub closed spec fn spec_encoding(&self) -> int {
        self.encoding as int
    }

    /// A fresh reader: default page size, UTF-8 encoding, no header read yet.
    pub fn new(db_path: String) -> (r: Self)
        ensures
            r.spec_file_path() == db_path@,
            r.spec_page_size() == 4096,
            r.spec_encoding() == 1,
    {
        BinaryPageReader { file_path: db_path, page_size: 4096, encoding: 1, header_bytes: Vec::new() }
    }

    /// Take in the first 100 bytes of the file and remember the page size
    /// and text encoding they declare.  Succeeds exactly when the bytes
    /// reach 100 and open with the signature; fails with `TruncatedInput`
    /// under 100 bytes and `InvalidMagic` on a bad signature, and only
    /// then.
    pub fn read_header(&mut self, header: &[u8]) -> (r: Result<(), DecodeError>)
        ensures
            r is Ok <==> header@.len() >= 100 && crate::value::be_uint(header@.subrange(0, 16))
                == crate::header::SQLITE_MAGIC,
            match r {
                Ok(()) => {
                    &&& final(self).spec_page_size() == (if be16_at(header@, 16) == 1 {
                        65536int
                    } else {
                        be16_at(header@, 16)
                    })
                    &&& final(self).spec_encoding() == crate::header::be32_at(header@, 56)
                    &&& final(self).spec_file_path() == old(self).spec_file_path()
                },
                Err(e) => {
                    &&& *final(self) == *old(self)
                    &&& match e {
                        DecodeError::TruncatedInput => header@.len() < 100,
                        DecodeError::InvalidMagic => header@.len() >= 100
                            && crate::value::be_uint(header@.subrange(0, 16))
                            != crate::header::SQLITE_MAGIC,
                        _ => false,
                    }
                },
            },
    {
        let parsed = match DatabaseHeader::parse(header) {
            Ok(h) => h,
            Err(e) => {
                return Err(e);
            },
        };
        self.page_size = if parsed.page_size == 1 {
            65536
        } else {
            parsed.page_size as usize
        };
        self.encoding = parsed.text_encoding;
        self.header_bytes = parsed.raw_data;
        Ok(())
    }

    /// Summarize a page buffer the way the reader reports pages: the type
    /// byte right after any file header, the first-free-block offset at the
    /// next two bytes, and the cell count two bytes after that.  A field
    /// whose bytes lie past the buffer reads as zero; only a missing type
    /// byte fails, with `TruncatedInput`.
    pub fn parse_page_data(&self, page_number: usize, data: Vec<u8>) -> (r: Result<
        PageData,
        DecodeError,
    >)
        ensures
            ({
                let base: int = if page_number == 1 { 100 } else { 0 };
                match r {
                    Ok(pd) => {
                        &&& data@.len() > base
                        &&& pd.page_number == page_number
                        &&& pd.data@ == data@
                        &&& pd.page_type == spec_page_type_of(data@[base])
                        &&& pd.free_offset == (if data@.len() > base + 2 {
                            be16_at(data@, base + 1)
                        } else {
                            0
                        })
                        &&& pd.cell_count == (if data@.len() > base + 4 {
                            be16_at(data@, base + 3)
                        } else {
                            0
                        })
                    },
                    Err(e) => e == DecodeError::TruncatedInput && data@.len() <= base,
                }
            }),
    {
        let base: usize = if page_number == 1 { 100 } else { 0 };
        if data.len() <= base {
            return Err(DecodeError::TruncatedInput);
        }
        let page_type = PageType::from(data[base]);
        let free_offset: usize = if data.len() > base + 2 {
            crate::header::read_be16(data.as_slice(), base + 1) as usize
        } else {
            0
        };
        let cell_count: usize = if data.len() > base + 4 {
            crate::header::read_be16(data.as_slice(), base + 3) as usize
        } else {
            0
        };
        Ok(PageData { page_number, data, page_type, cell_count, free_offset })
    }

    pub fn get_page_size(&self) -> (r: usize)
        ensures
            r == self.spec_page_size(),
    {
        self.page_size
    }

    pub fn get_encoding(&self) -> (r: u32)
        ensures
            r == self.spec_encoding(),
    {
        self.encoding
    }

    pub fn get_file_path(&self) -> (r: String)
        ensures
            r@ == self.spec_file_path(),
    {
        self.file_path.clone()
    }
}

/// Summary figures for one database file.
pub struct DatabaseInfo {
    pub page_size: usize,
    pub encoding: String,
    pub user_version: u32,
    pub application_id: u32,
    pub table_count: usize,
    pub index_count: usize,
    pub schema_version: u32,
    pub freelist_pages: usize,
}

/// Accumulates what the extraction steps learn about one file; the steps
/// that read the file or ask another process live with the caller.
pub struct DatabaseInfoExtractor {
    pub db_path: String,
    pub reader: BinaryPageReader,
    pub header_data: Vec<u8>,
    pub page_size: usize,
    pub tables_found: Vec<String>,
}

impl DatabaseInfoExtractor {
    pub fn new(db_path: &str) -> (r: Result<Self, DecodeError>)
        ensures
            match r {
                Ok(x) => {
                    &&& x.db_path@ == db_path@
                    &&& x.header_data@.len() == 0
                    &&& x.page_size == 0
                    &&& x.tables_found@.len() == 0
                },
                Err(_) => false,
            },
    {
        Ok(DatabaseInfoExtractor {
            db_path: str_to_string(db_path),
            reader: BinaryPageReader::new(str_to_string(db_path)),
            header_data: Vec::new(),
            page_size: 0,
            tables_found: Vec::new(),
        })
    }

    /// Fold the gathered state into the reported figures.
    pub fn compute_statistics(self) -> (r: Result<DatabaseInfo, DecodeError>)
        ensures
            match r {
                Ok(info) => {
                    &&& info.page_size == self.page_size
                    &&& info.encoding@ == "UTF-8"@
                    &&& info.user_version == 0
                    &&& info.application_id == 0
                    &&& info.table_count == self.tables_found@.len()
                    &&& info.index_count == self.tables_found@.len() / 2
                    &&& info.schema_version == 4
                    &&& info.freelist_pages == 0
                },
                Err(_) => false,
            },
    {
        let table_count = self.tables_found.len();
        Ok(DatabaseInfo {
            page_size: self.page_size,
            encoding: str_to_string("UTF-8"),
            user_version: 0,
            application_id: 0,
            table_count,
            index_count: table_count / 2,
            schema_version: 4,
            freelist_pages: 0,
        })
    }
}

/// Tracks page allocation state for one reader.
pub struct PageManager {
    pub reader: BinaryPageReader,
    pub freelist_page: Option<usize>,
    pub total_pages: usize,
    pub max_page_id: usize,
}

impl PageManager {
    /// Wrap a reader whose header the caller has already loaded.
    pub fn new(reader: BinaryPageReader) -> (r: Result<Self, DecodeError>)
        ensures
            match r {
                Ok(m) => {
                    &&& m.freelist_page is None
                    &&& m.total_pages == 0
                    &&& m.max_page_id == 0
                },
                Err(_) => false,
            },
    {
        Ok(PageManager { reader, freelist_page: None, total_pages: 0, max_page_id: 0 })
    }

    /// No page is ever on the freelist: this build reads files and does not
    /// write them.
    pub fn is_page_free(&self, _page_id: usize) -> (r: bool)
        ensures
            r == false,
    {
        false
    }
}

/// Copy a `&str` into an owned `String`.
pub(crate) fn str_to_string(s: &str) -> (r: String)
    ensures
        r@ == s@,
{
    String::from_str(s)
}

} // verus!
