//! Page interpretation: the 8-byte page header, the cell-pointer array that
//! follows it, and the two page flavors — the schema page (page 1, which
//! carries the 100-byte file header first) and ordinary data pages.

use vstd::prelude::*;
use crate::cell::{cell_header_offset, spec_decode_cell, Cell, CellModel};
use crate::header::{be16_at, read_be16, DatabaseHeader};
use crate::record::{RecordType, SchemaRecord};
use crate::value::clone_bytes;
use crate::{DecodeError, SQLITE_HEADER_SIZE, SQLITE_PAGE_HEADER_SIZE};

verus! {

/// The decoded 8-byte page header.
#[derive(Debug)]
pub struct PageHeader {
    pub page_type: u8,
    pub first_free_block: u16,
    pub num_cells: u16,
    pub start_of_cell_content_area: u16,
    pub num_frag_free_bytes: u8,
}

/// What a well-parsed page header says of the bytes at `base`.
pub open spec fn page_header_matches(ph: PageHeader, s: Seq<u8>, base: int) -> bool {
    &&& ph.page_type == s[base]
    &&& ph.first_free_block == be16_at(s, base + 1)
    &&& ph.num_cells == be16_at(s, base + 3)
    &&& ph.start_of_cell_content_area == be16_at(s, base + 5)
    &&& ph.num_frag_free_bytes == s[base + 7]
}

impl PageHeader {
    /// Parse a page header from the head of `raw_data`.
    pub fn new(raw_data: &[u8]) -> (r: PageHeader)
        requires
            raw_data@.len() >= 8,
        ensures
            page_header_matches(r, raw_data@, 0),
    {
        PageHeader {
            page_type: raw_data[0],
            first_free_block: read_be16(raw_data, 1),
            num_cells: read_be16(raw_data, 3),
            start_of_cell_content_area: read_be16(raw_data, 5),
            num_frag_free_bytes: raw_data[7],
        }
    }

    /// Parse the page header of a page buffer: at offset 100 on the first
    /// page, at offset 0 elsewhere.  Fails with `TruncatedInput`, and only
    /// then, when the buffer cannot hold the header.
    pub fn parse(buffer: &[u8], is_first_page: bool) -> (r: Result<PageHeader, DecodeError>)
        ensures
            ({
                let base: int = if is_first_page { 100 } else { 0 };
                match r {
                    Ok(ph) => buffer@.len() >= base + 8 && page_header_matches(ph, buffer@, base),
                    Err(e) => e == DecodeError::TruncatedInput && buffer@.len() < base + 8,
                }
            }),
    {
        let base: usize = if is_first_page { 100 } else { 0 };
        if buffer.len() < base + 8 {
            return Err(DecodeError::TruncatedInput);
        }
        Ok(PageHeader {
            page_type: buffer[base],
            first_free_block: read_be16(buffer, base + 1),
            num_cells: read_be16(buffer, base + 3),
            start_of_cell_content_area: read_be16(buffer, base + 5),
            num_frag_free_bytes: buffer[base + 7],
        })
    }

    /// The cell-content-area start this header records; the stored sentinel
    /// `0` stands for 65536.
    pub fn content_area_start(&self) -> (r: u32)
        ensures
            r == if self.start_of_cell_content_area == 0 {
                65536int
            } else {
                self.start_of_cell_content_area as int
            },
    {
        if self.start_of_cell_content_area == 0 {
            65536
        } else {
            self.start_of_cell_content_area as u32
        }
    }

    pub fn clone(&self) -> (r: PageHeader)
        ensures
            r.page_type == self.page_type,
            r.first_free_block == self.first_free_block,
            r.num_cells == self.num_cells,
            r.start_of_cell_content_area == self.start_of_cell_content_area,
            r.num_frag_free_bytes == self.num_frag_free_bytes,
    {
        PageHeader {
            page_type: self.page_type,
            first_free_block: self.first_free_block,
            num_cells: self.num_cells,
            start_of_cell_content_area: self.start_of_cell_content_area,
            num_frag_free_bytes: self.num_frag_free_bytes,
        }
    }
}

/// The cells a page's pointer array designates, decoded front to back;
/// `sub` is what each stored offset is reduced by before the cell is read
/// (100 on the first page, 0 elsewhere).
pub open spec fn spec_cells_from(s: Seq<u8>, base: int, i: int, n: int, sub: int) -> Result<
    Seq<CellModel>,
    DecodeError,
>
    decreases n - i,
{
    if i >= n {
        Ok(Seq::empty())
    } else {
        let off = be16_at(s, base + 2 * i);
        if off < sub {
            Err(DecodeError::TruncatedInput)
        } else {
            match spec_decode_cell(s, off - sub) {
                Err(e) => Err(e),
                Ok(c) => match spec_cells_from(s, base, i + 1, n, sub) {
                    Err(e) => Err(e),
                    Ok(rest) => Ok(seq![c] + rest),
                },
            }
        }
    }
}

/// Decoding a page is a function of its bytes alone: two successful
/// decodes of one buffer agree cell for cell, so decoding the same page
/// twice yields structurally equal results.
pub proof fn lemma_page_decode_deterministic(
    s: Seq<u8>,
    base: int,
    n: int,
    sub: int,
    a: Seq<CellModel>,
    b: Seq<CellModel>,
)
    requires
        spec_cells_from(s, base, 0, n, sub) == Ok::<Seq<CellModel>, DecodeError>(a),
        spec_cells_from(s, base, 0, n, sub) == Ok::<Seq<CellModel>, DecodeError>(b),
    ensures
        a == b,
{
}

/// An ordinary b-tree data page: its number, parsed header, post-header
/// bytes, and the raw page buffer the cell pointers index into.
#[derive(Debug)]
pub struct DataPage {
    pub page_number: u32,
    pub page_header: PageHeader,
    pub data: Vec<u8>,
    pub raw_data: Vec<u8>,
}

impl DataPage {
    /// The page buffer is big enough for its header, the header fields were
    /// read from it, and `data` is everything after the header.
    pub open spec fn wf(&self) -> bool {
        &&& self.raw_data@.len() >= 8
        &&& page_header_matches(self.page_header, self.raw_data@, 0)
        &&& self.data@ == self.raw_data@.subrange(8, self.raw_data@.len() as int)
    }

    /// Interpret a raw page buffer.  Fails with `TruncatedInput`, and only
    /// then, when the buffer cannot hold a page header.
    pub fn new(page_number: u32, raw_data: Vec<u8>) -> (r: Result<DataPage, DecodeError>)
        ensures
            match r {
                Ok(p) => {
                    &&& p.wf()
                    &&& p.page_number == page_number
                    &&& p.raw_data@ == raw_data@
                },
                Err(e) => e == DecodeError::TruncatedInput && raw_data@.len() < 8,
            },
    {
        if raw_data.len() < 8 {
            return Err(DecodeError::TruncatedInput);
        }
        let page_header = PageHeader::new(raw_data.as_slice());
        let data = tail_from(&raw_data, SQLITE_PAGE_HEADER_SIZE);
        Ok(DataPage { page_number, page_header, data, raw_data })
    }

    /// The cell-pointer array: `num_cells` big-endian 16-bit offsets right
    /// after the page header.  Fails with `TruncatedInput`, and only then,
    /// when the array would run past the buffer.
    pub fn get_cell_offsets(&self) -> (r: Result<Vec<u16>, DecodeError>)
        requires
            self.wf(),
        ensures
            match r {
                Ok(offs) => {
                    &&& 8 + 2 * self.page_header.num_cells <= self.raw_data@.len()
                    &&& offs@.len() == self.page_header.num_cells
                    &&& forall|i: int|
                        0 <= i < offs@.len() ==> offs@[i] == be16_at(self.raw_data@, 8 + 2 * i)
                },
                Err(e) => {
                    &&& e == DecodeError::TruncatedInput
                    &&& 8 + 2 * self.page_header.num_cells > self.raw_data@.len()
                },
            },
    {
        read_pointer_array(&self.raw_data, SQLITE_PAGE_HEADER_SIZE, self.page_header.num_cells)
    }

    /// Decode the cell a stored pointer designates.  On page 1 the stored
    /// offset accounts for the 100-byte file header and is reduced by it
    /// first.
    pub fn get_cell_content(&self, offset: u16) -> (r: Result<Cell, DecodeError>)
        requires
            self.wf(),
        ensures
            ({
                let sub: int = if self.page_number == 1 { 100 } else { 0 };
                match r {
                    Ok(c) => {
                        &&& offset >= sub
                        &&& spec_decode_cell(self.raw_data@, offset - sub) == Ok::<
                            CellModel,
                            DecodeError,
                        >(c@)
                        &&& c.record is DataRecord
                    },
                    Err(e) => offset < sub && e == DecodeError::TruncatedInput || offset >= sub
                        && spec_decode_cell(self.raw_data@, offset - sub) == Err::<
                        CellModel,
                        DecodeError,
                    >(e),
                }
            }),
    {
        let adjusted = cell_header_offset(offset, self.page_number == 1)?;
        Cell::new(self.raw_data.as_slice(), adjusted, false)
    }

    /// Decode every cell the pointer array designates, in on-disk order.
    #[verifier::loop_isolation(false)]
    pub fn get_cell_contents(&self) -> (r: Result<Vec<Cell>, DecodeError>)
        requires
            self.wf(),
        ensures
            ({
                let sub: int = if self.page_number == 1 { 100 } else { 0 };
                let n = self.page_header.num_cells as int;
                match r {
                    Ok(cells) => {
                        &&& 8 + 2 * n <= self.raw_data@.len()
                        &&& spec_cells_from(self.raw_data@, 8, 0, n, sub) matches Ok(ms)
                        &&& cells@.len() == ms.len()
                        &&& forall|i: int| 0 <= i < ms.len() ==> cells@[i]@ == ms[i]
                        &&& forall|i: int| 0 <= i < cells@.len() ==> cells@[i].record is DataRecord
                    },
                    Err(e) => 8 + 2 * n > self.raw_data@.len() && e == DecodeError::TruncatedInput
                        || spec_cells_from(self.raw_data@, 8, 0, n, sub) == Err::<
                        Seq<CellModel>,
                        DecodeError,
                    >(e),
                }
            }),
    {
        let offsets = self.get_cell_offsets()?;
        let n = offsets.len();
        let ghost sub: int = if self.page_number == 1 { 100 } else { 0 };
        let mut cells: Vec<Cell> = Vec::new();
        let mut i: usize = 0;
        while i < n
            invariant
                0 <= i <= n,
                cells@.len() == i,
                match spec_cells_from(self.raw_data@, 8, i as int, n as int, sub) {
                    Ok(rest) => {
                        &&& spec_cells_from(self.raw_data@, 8, 0, n as int, sub) matches Ok(ms)
                        &&& ms.len() == i + rest.len()
                        &&& forall|j: int| 0 <= j < i ==> cells@[j]@ == ms[j]
                        &&& forall|j: int| 0 <= j < rest.len() ==> rest[j] == ms[i + j]
                    },
                    Err(e) => spec_cells_from(self.raw_data@, 8, 0, n as int, sub) == Err::<
                        Seq<CellModel>,
                        DecodeError,
                    >(e),
                },
                forall|j: int| 0 <= j < i ==> cells@[j].record is DataRecord,
            decreases n - i,
        {
            let cell = match self.get_cell_content(offsets[i]) {
                Ok(c) => c,
                Err(e) => {
                    proof {
                        let s = self.raw_data@;
                        assert(be16_at(s, 8 + 2 * (i as int)) == offsets@[i as int]);
                        assert(spec_cells_from(s, 8, i as int, n as int, sub) == Err::<
                            Seq<CellModel>,
                            DecodeError,
                        >(e));
                    }
                    return Err(e);
                },
            };
            cells.push(cell);
            i = i + 1;
            proof {
                let s = self.raw_data@;
                let io = i - 1;
                let off = be16_at(s, 8 + 2 * io);
                assert(off == offsets@[io]);
                match spec_cells_from(s, 8, i as int, n as int, sub) {
                    Ok(rest) => {
                        assert(spec_cells_from(s, 8, io, n as int, sub) == Ok::<
                            Seq<CellModel>,
                            DecodeError,
                        >(seq![cells@[io]@] + rest));
                        let ms = spec_cells_from(s, 8, 0, n as int, sub).unwrap();
                        assert((seq![cells@[io]@] + rest)[0] == cells@[io]@);
                        assert forall|j: int| 0 <= j < rest.len() implies rest[j] == ms[i + j] by {
                            assert(rest[j] == (seq![cells@[io]@] + rest)[j + 1]);
                        }
                    },
                    Err(e) => {
                        assert(spec_cells_from(s, 8, io, n as int, sub) == Err::<
                            Seq<CellModel>,
                            DecodeError,
                        >(e));
                    },
                }
            }
        }
        Ok(cells)
    }

    pub fn clone(&self) -> (r: DataPage)
        ensures
            r.page_number == self.page_number,
            r.raw_data@ == self.raw_data@,
            r.data@ == self.data@,
            self.wf() ==> r.wf(),
    {
        DataPage {
            page_number: self.page_number,
            page_header: self.page_header.clone(),
            data: clone_bytes(&self.data),
            raw_data: clone_bytes(&self.raw_data),
        }
    }
}

/// Page 1: the schema page.  Its page header sits after the 100-byte file
/// header, and its cells hold schema records.
#[derive(Debug)]
pub struct SchemaPage {
    pub db_header: DatabaseHeader,
    pub page_number: u32,
    pub page_header: PageHeader,
    pub data: Vec<u8>,
    pub raw_data: Vec<u8>,
}

impl SchemaPage {
    /// The buffer holds the file header and page header, the header fields
    /// were read from it, and `data` is everything after both.
    pub open spec fn wf(&self) -> bool {
        &&& self.raw_data@.len() >= 108
        &&& page_header_matches(self.page_header, self.raw_data@, 100)
        &&& self.data@ == self.raw_data@.subrange(108, self.raw_data@.len() as int)
        &&& self.page_number == 1
    }

    /// Interpret the raw bytes of page 1.  Fails with `TruncatedInput`, and
    /// only then, when the buffer cannot hold the file and page headers.
    pub fn new(db_header: DatabaseHeader, raw_data: Vec<u8>) -> (r: Result<SchemaPage, DecodeError>)
        ensures
            match r {
                Ok(p) => {
                    &&& p.wf()
                    &&& p.raw_data@ == raw_data@
                    &&& p.db_header == db_header
                },
                Err(e) => e == DecodeError::TruncatedInput && raw_data@.len() < 108,
            },
    {
        if raw_data.len() < SQLITE_HEADER_SIZE + SQLITE_PAGE_HEADER_SIZE {
            return Err(DecodeError::TruncatedInput);
        }
        let page_header = match PageHeader::parse(raw_data.as_slice(), true) {
            Ok(ph) => ph,
            Err(_) => {
                proof {
                    assert(false);
                }
                return Err(DecodeError::TruncatedInput);
            },
        };
        let data = tail_from(&raw_data, SQLITE_HEADER_SIZE + SQLITE_PAGE_HEADER_SIZE);
        Ok(SchemaPage { db_header, page_number: 1, page_header, data, raw_data })
    }

    /// The cell-pointer array: `num_cells` big-endian 16-bit offsets after
    /// the file header and page header.  Fails with `TruncatedInput`, and
    /// only then, when the array would run past the buffer.
    pub fn get_cell_offsets(&self) -> (r: Result<Vec<u16>, DecodeError>)
        requires
            self.wf(),
        ensures
            match r {
                Ok(offs) => {
                    &&& 108 + 2 * self.page_header.num_cells <= self.raw_data@.len()
                    &&& offs@.len() == self.page_header.num_cells
                    &&& forall|i: int|
                        0 <= i < offs@.len() ==> offs@[i] == be16_at(self.raw_data@, 108 + 2 * i)
                },
                Err(e) => {
                    &&& e == DecodeError::TruncatedInput
                    &&& 108 + 2 * self.page_header.num_cells > self.raw_data@.len()
                },
            },
    {
        read_pointer_array(
            &self.raw_data,
            SQLITE_HEADER_SIZE + SQLITE_PAGE_HEADER_SIZE,
            self.page_header.num_cells,
        )
    }

    /// Decode the schema cell a stored pointer designates.  Stored offsets
    /// on the schema page index the raw buffer directly.
    pub fn get_cell_content(&self, offset: u16) -> (r: Result<Cell, DecodeError>)
        requires
            self.wf(),
        ensures
            match r {
                Ok(c) => spec_decode_cell(self.raw_data@, offset as int) == Ok::<
                    CellModel,
                    DecodeError,
                >(c@) && c.record is SchemaRecord,
                Err(e) => spec_decode_cell(self.raw_data@, offset as int) == Err::<
                    CellModel,
                    DecodeError,
                >(e),
            },
    {
        Cell::new(self.raw_data.as_slice(), offset as usize, true)
    }

    /// Decode every schema cell the pointer array designates, in on-disk
    /// order.
    #[verifier::loop_isolation(false)]
    pub fn get_cell_contents(&self) -> (r: Result<Vec<Cell>, DecodeError>)
        requires
            self.wf(),
        ensures
            ({
                let n = self.page_header.num_cells as int;
                match r {
                    Ok(cells) => {
                        &&& 108 + 2 * n <= self.raw_data@.len()
                        &&& spec_cells_from(self.raw_data@, 108, 0, n, 0) matches Ok(ms)
                        &&& cells@.len() == ms.len()
                        &&& forall|i: int| 0 <= i < ms.len() ==> cells@[i]@ == ms[i]
                        &&& forall|i: int| 0 <= i < cells@.len() ==> cells@[i].record is SchemaRecord
                    },
                    Err(e) => 108 + 2 * n > self.raw_data@.len() && e == DecodeError::TruncatedInput
                        || spec_cells_from(self.raw_data@, 108, 0, n, 0) == Err::<
                        Seq<CellModel>,
                        DecodeError,
                    >(e),
                }
            }),
    {
        let offsets = self.get_cell_offsets()?;
        let n = offsets.len();
        let mut cells: Vec<Cell> = Vec::new();
        let mut i: usize = 0;
        while i < n
            invariant
                0 <= i <= n,
                cells@.len() == i,
                match spec_cells_from(self.raw_data@, 108, i as int, n as int, 0) {
                    Ok(rest) => {
                        &&& spec_cells_from(self.raw_data@, 108, 0, n as int, 0) matches Ok(ms)
                        &&& ms.len() == i + rest.len()
                        &&& forall|j: int| 0 <= j < i ==> cells@[j]@ == ms[j]
                        &&& forall|j: int| 0 <= j < rest.len() ==> rest[j] == ms[i + j]
                    },
                    Err(e) => spec_cells_from(self.raw_data@, 108, 0, n as int, 0) == Err::<
                        Seq<CellModel>,
                        DecodeError,
                    >(e),
                },
                forall|j: int| 0 <= j < i ==> cells@[j].record is SchemaRecord,
            decreases n - i,
        {
            let cell = match self.get_cell_content(offsets[i]) {
                Ok(c) => c,
                Err(e) => {
                    proof {
                        let s = self.raw_data@;
                        assert(be16_at(s, 108 + 2 * (i as int)) == offsets@[i as int]);
                        assert(spec_cells_from(s, 108, i as int, n as int, 0) == Err::<
                            Seq<CellModel>,
                            DecodeError,
                        >(e));
                    }
                    return Err(e);
                },
            };
            cells.push(cell);
            i = i + 1;
            proof {
                let s = self.raw_data@;
                let io = i - 1;
                let off = be16_at(s, 108 + 2 * io);
                assert(off == offsets@[io]);
                match spec_cells_from(s, 108, i as int, n as int, 0) {
                    Ok(rest) => {
                        assert(spec_cells_from(s, 108, io, n as int, 0) == Ok::<
                            Seq<CellModel>,
                            DecodeError,
                        >(seq![cells@[io]@] + rest));
                        let ms = spec_cells_from(s, 108, 0, n as int, 0).unwrap();
                        assert((seq![cells@[io]@] + rest)[0] == cells@[io]@);
                        assert forall|j: int| 0 <= j < rest.len() implies rest[j] == ms[i + j] by {
                            assert(rest[j] == (seq![cells@[io]@] + rest)[j + 1]);
                        }
                    },
                    Err(e) => {
                        assert(spec_cells_from(s, 108, io, n as int, 0) == Err::<
                            Seq<CellModel>,
                            DecodeError,
                        >(e));
                    },
                }
            }
        }
        Ok(cells)
    }

    /// The schema records of every cell on the page, in on-disk order.
    #[verifier::loop_isolation(false)]
    pub fn get_table_data(&self) -> (r: Result<Vec<SchemaRecord>, DecodeError>)
        requires
            self.wf(),
        ensures
            ({
                let n = self.page_header.num_cells as int;
                match r {
                    Ok(records) => {
                        &&& spec_cells_from(self.raw_data@, 108, 0, n, 0) matches Ok(ms)
                        &&& records@.len() == ms.len()
                        &&& forall|i: int| 0 <= i < ms.len() ==> records@[i]@ == ms[i].record
                    },
                    Err(e) => 108 + 2 * n > self.raw_data@.len() && e == DecodeError::TruncatedInput
                        || spec_cells_from(self.raw_data@, 108, 0, n, 0) == Err::<
                        Seq<CellModel>,
                        DecodeError,
                    >(e),
                }
            }),
    {
        let cells = self.get_cell_contents()?;
        let n = cells.len();
        let mut records: Vec<SchemaRecord> = Vec::new();
        let mut i: usize = 0;
        while i < n
            invariant
                0 <= i <= n,
                n == cells@.len(),
                records@.len() == i,
                spec_cells_from(
                    self.raw_data@,
                    108,
                    0,
                    self.page_header.num_cells as int,
                    0,
                ) matches Ok(ms) && ms.len() == n && forall|j: int|
                    0 <= j < n ==> cells@[j]@ == ms[j],
                forall|j: int| 0 <= j < n ==> cells@[j].record is SchemaRecord,
                forall|j: int| 0 <= j < i ==> records@[j]@ == cells@[j]@.record,
            decreases n - i,
        {
            let cell = &cells[i];
            match &cell.record {
                RecordType::SchemaRecord(rec) => {
                    records.push(rec.clone());
                },
                RecordType::DataRecord(_) => {
                    proof {
                        assert(false);
                    }
                },
            }
            i = i + 1;
        }
        Ok(records)
    }

    pub fn clone(&self) -> (r: SchemaPage)
        ensures
            r.page_number == self.page_number,
            r.raw_data@ == self.raw_data@,
            r.data@ == self.data@,
            self.wf() ==> r.wf(),
    {
        SchemaPage {
            db_header: self.db_header.clone(),
            page_number: self.page_number,
            page_header: self.page_header.clone(),
            data: clone_bytes(&self.data),
            raw_data: clone_bytes(&self.raw_data),
        }
    }
}

/// Either flavor of page.
#[derive(Debug)]
pub enum PageType {
    Schema(SchemaPage),
    Data(DataPage),
}

impl PageType {
    pub fn clone(&self) -> (r: PageType)
        ensures
            r is Schema <==> self is Schema,
    {
        match self {
            PageType::Schema(p) => PageType::Schema(p.clone()),
            PageType::Data(p) => PageType::Data(p.clone()),
        }
    }
}

/// Byte offset of a page in the file: page 1 starts at 0 and includes the
/// file header; every later page starts a whole number of pages in.
pub fn page_byte_offset(page_number: u32, page_size: u32) -> (r: u64)
    requires
        page_number >= 1,
    ensures
        r == if page_number == 1 { 0int } else { (page_number - 1) * page_size },
{
    if page_number == 1 {
        0
    } else {
        proof {
            assert(((page_number - 1) as u64) * (page_size as u64) < 0x1_0000_0000_0000_0000)
                by (nonlinear_arith)
                requires
                    page_number < 0x1_0000_0000,
                    page_size < 0x1_0000_0000,
                    page_number >= 1,
            ;
        }
        ((page_number - 1) as u64) * (page_size as u64)
    }
}

/// Where a page's bytes lie in a file of `file_size` bytes, or
/// `PageOutOfRange`, exactly when the page does not fit before the end of
/// the file.
pub fn check_page_in_file(page_number: u32, page_size: u32, file_size: u64) -> (r: Result<
    u64,
    DecodeError,
>)
    ensures
        match r {
            Ok(off) => {
                &&& page_number >= 1
                &&& off == if page_number == 1 { 0int } else { (page_number - 1) * page_size }
                &&& off + page_size <= file_size
            },
            Err(e) => {
                &&& e == DecodeError::PageOutOfRange
                &&& (page_number < 1 || (if page_number == 1 {
                    0int
                } else {
                    (page_number - 1) * page_size
                }) + page_size > file_size)
            },
        },
{
    if page_number < 1 {
        return Err(DecodeError::PageOutOfRange);
    }
    let off = page_byte_offset(page_number, page_size);
    if file_size < page_size as u64 || off > file_size - page_size as u64 {
        return Err(DecodeError::PageOutOfRange);
    }
    Ok(off)
}

/// Copy everything from byte `start` on into an owned vector.
fn tail_from(bytes: &Vec<u8>, start: usize) -> (r: Vec<u8>)
    requires
        start <= bytes@.len(),
    ensures
        r@ == bytes@.subrange(start as int, bytes@.len() as int),
{
    let mut out: Vec<u8> = Vec::new();
    let mut i: usize = start;
    while i < bytes.len()
        invariant
            start <= i <= bytes@.len(),
            out@ =~= bytes@.subrange(start as int, i as int),
        decreases bytes@.len() - i,
    {
        out.push(bytes[i]);
        proof {
            assert(out@ =~= bytes@.subrange(start as int, i + 1));
        }
        i = i + 1;
    }
    proof {
        assert(out@ =~= bytes@.subrange(start as int, bytes@.len() as int));
    }
    out
}

/// Read `n` big-endian 16-bit cell pointers starting at `base`.
fn read_pointer_array(raw: &Vec<u8>, base: usize, n: u16) -> (r: Result<Vec<u16>, DecodeError>)
    requires
        base + 2 * n < usize::MAX,
    ensures
        match r {
            Ok(offs) => {
                &&& base + 2 * n <= raw@.len()
                &&& offs@.len() == n
                &&& forall|i: int| 0 <= i < offs@.len() ==> offs@[i] == be16_at(raw@, base + 2 * i)
            },
            Err(e) => {
                &&& e == DecodeError::TruncatedInput
                &&& base + 2 * n > raw@.len()
            },
        },
{
    if raw.len() < base || raw.len() - base < 2 * (n as usize) {
        return Err(DecodeError::TruncatedInput);
    }
    let mut offs: Vec<u16> = Vec::new();
    let mut i: usize = 0;
    while i < n as usize
        invariant
            0 <= i <= n,
            base + 2 * n < usize::MAX,
            base + 2 * n <= raw@.len(),
            offs@.len() == i,
            forall|j: int| 0 <= j < i ==> offs@[j] == be16_at(raw@, base + 2 * j),
        decreases n - i,
    {
        let v = read_be16(raw.as_slice(), base + 2 * i);
        offs.push(v);
        i = i + 1;
    }
    Ok(offs)
}

} // verus!
