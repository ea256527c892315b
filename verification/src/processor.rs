//! Handles on external database processing.  Running another process is
//! the caller's business; what lives here is the handle state itself.

use vstd::prelude::*;
use crate::storage::str_to_string;

verus! {

/// A handle for shelling queries out to an external engine.  `temp_dir` is
/// where a caller that runs queries stages its files.
pub struct SqliteProcessor {
    pub db_path: String,
    pub temp_dir: String,
    pub log_queries: bool,
}

impl SqliteProcessor {
    /// A handle over the given database path, staging under `temp_dir`.
    pub fn new(db_path: &str, temp_dir: &str) -> (r: Self)
        ensures
            r.db_path@ == db_path@,
            r.temp_dir@ == temp_dir@,
            !r.log_queries,
    {
        SqliteProcessor {
            db_path: str_to_string(db_path),
            temp_dir: str_to_string(temp_dir),
            log_queries: false,
        }
    }

    /// The same handle with query logging switched as given.
    pub fn with_query_logging(self, enable: bool) -> (r: Self)
        ensures
            r.db_path@ == self.db_path@,
            r.temp_dir@ == self.temp_dir@,
            r.log_queries == enable,
    {
        SqliteProcessor { db_path: self.db_path, temp_dir: self.temp_dir, log_queries: enable }
    }
}

/// The engines a query can be handed to.
pub enum DatabaseAdapter {
    SQLite(SqliteProcessor),
    Memory,
    Custom(String),
}

impl DatabaseAdapter {
    /// An adapter over an external engine at the given path; callers that
    /// run queries fill in their own staging directory.
    pub fn new_sqlite(path: &str) -> (r: Self)
        ensures
            r matches DatabaseAdapter::SQLite(p) && {
                &&& p.db_path@ == path@
                &&& p.temp_dir@ == Seq::<char>::empty()
                &&& !p.log_queries
            },
    {
        proof {
            reveal_strlit("");
            assert(""@ =~= Seq::<char>::empty());
        }
        DatabaseAdapter::SQLite(SqliteProcessor::new(path, ""))
    }
}

} // verus!
