//! Shapes for query facts fetched straight from a live database handle; the
//! fetching itself lives with the caller.

use vstd::prelude::*;

verus! {

/// Table and column names one query touches.
pub struct DirectQueryInfo {
    pub table_names: Vec<String>,
    pub column_names: Vec<String>,
}

} // verus!
