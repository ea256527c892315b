//! Table schemas and the extractor state that gathers them.

use vstd::prelude::*;
use crate::schema_column::ColumnSchema;
use crate::storage::{str_to_string, BinaryPageReader};
use crate::DecodeError;

verus! {

/// The schema of one table.
#[derive(Debug, Clone)]
pub struct TableSchema {
    pub name: String,
    pub columns: Vec<ColumnSchema>,
    pub root_page: u32,
    pub sql: String,
    pub estimated_row_count: Option<u64>,
    pub is_virtual: bool,
    pub is_system: bool,
    pub is_temporary: bool,
}

/// Gathers schema facts about one database file; the steps that read the
/// file or ask another process live with the caller.
pub struct SchemaExtractor {
    pub db_path: String,
    pub reader: Option<BinaryPageReader>,
    pub master_root_page: Option<u32>,
    pub catalog_initialized: bool,
    pub tables_found: Vec<TableSchema>,
}

impl SchemaExtractor {
    pub fn new(db_path: &str) -> (r: Result<Self, DecodeError>)
        ensures
            match r {
                Ok(x) => {
                    &&& x.db_path@ == db_path@
                    &&& x.reader is None
                    &&& x.master_root_page is None
                    &&& !x.catalog_initialized
                    &&& x.tables_found@.len() == 0
                },
                Err(_) => false,
            },
    {
        Ok(SchemaExtractor {
            db_path: str_to_string(db_path),
            reader: None,
            master_root_page: None,
            catalog_initialized: false,
            tables_found: Vec::new(),
        })
    }

    /// Point the catalog at the master schema table, which roots at page 1.
    pub fn initialize_catalog(self) -> (r: Result<Self, DecodeError>)
        ensures
            match r {
                Ok(x) => {
                    &&& x.db_path@ == self.db_path@
                    &&& x.reader is Some
                    &&& x.master_root_page == Some(1u32)
                    &&& x.catalog_initialized
                    &&& x.tables_found@.len() == self.tables_found@.len()
                },
                Err(_) => false,
            },
    {
        let reader = BinaryPageReader::new(self.db_path.clone());
        Ok(SchemaExtractor {
            db_path: self.db_path,
            reader: Some(reader),
            master_root_page: Some(1),
            catalog_initialized: true,
            tables_found: self.tables_found,
        })
    }

    /// The names of every table found so far, in found order.
    pub fn collect_table_names(self) -> (r: Result<Vec<String>, DecodeError>)
        ensures
            match r {
                Ok(names) => {
                    &&& names@.len() == self.tables_found@.len()
                    &&& forall|i: int|
                        0 <= i < names@.len() ==> names@[i]@ == self.tables_found@[i].name@
                },
                Err(_) => false,
            },
    {
        let n = self.tables_found.len();
        let mut names: Vec<String> = Vec::new();
        let mut i: usize = 0;
        while i < n
            invariant
                0 <= i <= n,
                n == self.tables_found@.len(),
                names@.len() == i,
                forall|j: int| 0 <= j < i ==> names@[j]@ == self.tables_found@[j].name@,
            decreases n - i,
        {
            names.push(self.tables_found[i].name.clone());
            i = i + 1;
        }
        Ok(names)
    }
}

} // verus!
