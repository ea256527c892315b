//! The statement-kind parsers the engine dispatches between.  Extracting
//! columns and table names from a parsed SELECT works on the parser
//! crate's syntax tree and lives with the caller.

use vstd::prelude::*;

verus! {

/// Parser for SELECT statements.
pub struct SelectParser {}

/// The statement parsers the engine can dispatch to.
pub enum SQLParser {
    SelectParser(SelectParser),
}

} // verus!
