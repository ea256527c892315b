//! Decoder for single-file, page-organized databases in the SQLite on-disk
//! format, together with the engine bookkeeping that sits around it.
//!
//! The decoding layer is pure: every function works on an in-memory byte
//! buffer and is a function of that buffer alone.  Reading pages from disk,
//! shelling out, and serving queries live outside this crate.

pub mod ast;
pub mod btree;
pub mod btree_cache;
pub mod btree_node;
pub mod btree_traversal;
pub mod cell;
pub mod direct;
pub mod engine;
pub mod execution;
pub mod header;
pub mod logger;
pub mod metrics;
pub mod page;
pub mod parser;
pub mod processor;
pub mod record;
pub mod schema;
pub mod schema_column;
pub mod schema_index;
pub mod schema_table;
pub mod select_parser;
pub mod storage;
pub mod text;
pub mod utils;
pub mod validator;
pub mod value;
pub mod varint;

use vstd::prelude::*;

verus! {

/// Size in bytes of the database file header that precedes page 1's content.
pub const SQLITE_HEADER_SIZE: usize = 100;

/// Size in bytes of a b-tree page header.
pub const SQLITE_PAGE_HEADER_SIZE: usize = 8;

/// Every way a decode step can fail.  Decoding never substitutes a default
/// value: corrupt structure surfaces as one of these.
#[derive(Debug, Clone, Copy, PartialEq, Eq, Structural)]
pub enum DecodeError {
    /// The first 16 header bytes are not the expected signature.
    InvalidMagic,
    /// A requested page lies past the end of the file.
    PageOutOfRange,
    /// A varint or fixed-width read would run past the supplied buffer.
    TruncatedInput,
    /// Serial type 10 or 11.
    ReservedSerialType,
    /// A serial type outside the closed grammar.
    UnknownSerialType,
    /// A text value whose bytes are not valid UTF-8.
    InvalidUtf8,
}

} // verus!
