//! Engine-wide constants, errors, and statistics counters.

use vstd::prelude::*;

verus! {

pub const DEFAULT_PAGE_SIZE: usize = 4096;

pub const DEFAULT_CACHE_SIZE: usize = 2000;

pub const HEADER_SIZE: usize = 100;

/// Failures the engine layers report among themselves.
#[derive(Debug, Clone)]
pub enum EngineError {
    BTreeError(String),
    StorageError(String),
    ExecutionError(String),
    InvalidOperation(String),
    OutOfMemory(String),
    CorruptData(String),
}

/// Running totals the engine keeps while serving requests.
pub struct EngineStats {
    pub pages_read: usize,
    pub pages_written: usize,
    pub cache_hits: usize,
    pub cache_misses: usize,
    pub btree_splits: usize,
    pub btree_merges: usize,
    pub execution_time_ns: u64,
}

impl EngineStats {
    pub fn new() -> (r: Self)
        ensures
            r.pages_read == 0,
            r.pages_written == 0,
            r.cache_hits == 0,
            r.cache_misses == 0,
            r.btree_splits == 0,
            r.btree_merges == 0,
            r.execution_time_ns == 0,
    {
        EngineStats {
            pages_read: 0,
            pages_written: 0,
            cache_hits: 0,
            cache_misses: 0,
            btree_splits: 0,
            btree_merges: 0,
            execution_time_ns: 0,
        }
    }
}

} // verus!
