//! The shapes a parsed SQL statement is reported in.

use vstd::prelude::*;

verus! {

/// The kind of SQL statement.
#[derive(Debug, Clone, PartialEq, Eq, Structural)]
pub enum QueryType {
    Select,
    Insert,
    Update,
    Delete,
    Create,
    Alter,
    Drop,
    Unknown,
}

/// Operators an expression can use.
#[derive(Debug, Clone)]
pub enum Operator {
    Plus,
    Minus,
    Multiply,
    Divide,
    Equals,
    NotEquals,
    GreaterThan,
    LessThan,
    GreaterEquals,
    LessEquals,
    And,
    Or,
    Not,
}

/// A statement: its kind and the text it was parsed from.
#[derive(Debug, Clone)]
pub struct Statement {
    pub query_type: QueryType,
    pub query_text: String,
}

/// What analysis extracted from one query.
#[derive(Debug, Clone)]
pub struct AnalyzedQuery {
    pub query_type: QueryType,
    pub table_references: Vec<String>,
    pub column_references: Vec<String>,
    pub where_clause: Option<String>,
    pub order_by: Vec<String>,
    pub limit: Option<usize>,
    pub query_text: String,
}

} // verus!
