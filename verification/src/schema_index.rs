//! Index schemas and the manager that fetches them; the fetching itself
//! shells out and lives with the caller.

use vstd::prelude::*;
use crate::storage::str_to_string;

verus! {

/// Kinds of index.
#[derive(Debug, Clone, Copy, PartialEq, Eq, Structural)]
pub enum IndexType {
    BTree,
    Hash,
    Rtree,
    Unknown,
}

/// Direction a column is ordered in.
#[derive(Debug, Clone, Copy, PartialEq, Eq, Structural)]
pub enum SortOrder {
    Ascending,
    Descending,
}

/// One column of an index.
#[derive(Debug, Clone)]
pub struct IndexColumn {
    pub name: String,
    pub position: usize,
    pub sort_order: SortOrder,
    pub collation: Option<String>,
}

/// The schema of one index.
#[derive(Debug, Clone)]
pub struct IndexSchema {
    pub name: String,
    pub table_name: String,
    pub columns: Vec<IndexColumn>,
    pub is_unique: bool,
    pub index_type: IndexType,
    pub root_page: u32,
    pub sql: String,
    pub estimated_entries: Option<u64>,
}

/// Fetches index facts for one database file.
pub struct IndexManager {
    pub db_path: String,
}

impl IndexManager {
    pub fn new(db_path: &str) -> (r: Self)
        ensures
            r.db_path@ == db_path@,
    {
        IndexManager { db_path: str_to_string(db_path) }
    }
}

} // verus!
