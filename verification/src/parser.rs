//! SQL statement intake: classify the statement from its leading word and
//! hold its text, with the heavy syntax check delegated to the `sqlparser`
//! crate.

use vstd::prelude::*;
use crate::ast::{QueryType, Statement};
use vstd::string::StringSliceAdditionalSpecFns;
use crate::storage::str_to_string;

verus! {

/// ASCII lower-casing of one byte.
pub open spec fn lower8(b: u8) -> u8 {
    if 65 <= b <= 90 {
        (b + 32) as u8
    } else {
        b
    }
}

/// ASCII whitespace, the separators the tokenizer splits on.
pub open spec fn is_space_byte(b: u8) -> bool {
    b == 32 || b == 9 || b == 10 || b == 13
}

/// `s` with leading whitespace removed.
pub open spec fn skip_spaces(s: Seq<u8>) -> Seq<u8>
    decreases s.len(),
{
    if s.len() == 0 {
        s
    } else if is_space_byte(s[0]) {
        skip_spaces(s.drop_first())
    } else {
        s
    }
}

/// The leading run of non-whitespace bytes of `s`.
pub open spec fn take_word(s: Seq<u8>) -> Seq<u8>
    decreases s.len(),
{
    if s.len() == 0 || is_space_byte(s[0]) {
        Seq::empty()
    } else {
        seq![s[0]] + take_word(s.drop_first())
    }
}

/// The first word of `s`, lower-cased.
pub open spec fn first_word_lower(s: Seq<u8>) -> Seq<u8> {
    take_word(skip_spaces(s)).map_values(|b: u8| lower8(b))
}

/// The statement kind the first word announces, compared without regard to
/// ASCII case.
pub open spec fn spec_classify_sql(s: Seq<u8>) -> QueryType {
    let w = first_word_lower(s);
    if w == seq![115u8, 101u8, 108u8, 101u8, 99u8, 116u8] {
        QueryType::Select
    } else if w == seq![105u8, 110u8, 115u8, 101u8, 114u8, 116u8] {
        QueryType::Insert
    } else if w == seq![117u8, 112u8, 100u8, 97u8, 116u8, 101u8] {
        QueryType::Update
    } else if w == seq![100u8, 101u8, 108u8, 101u8, 116u8, 101u8] {
        QueryType::Delete
    } else if w == seq![99u8, 114u8, 101u8, 97u8, 116u8, 101u8] {
        QueryType::Create
    } else if w == seq![97u8, 108u8, 116u8, 101u8, 114u8] {
        QueryType::Alter
    } else if w == seq![100u8, 114u8, 111u8, 112u8] {
        QueryType::Drop
    } else {
        QueryType::Unknown
    }
}

fn is_space_u8(b: u8) -> (r: bool)
    ensures
        r == is_space_byte(b),
{
    b == 32 || b == 9 || b == 10 || b == 13
}

/// Classify a statement by its leading word.
pub fn classify_query(sql: &str) -> (r: QueryType)
    ensures
        r == spec_classify_sql(sql.spec_bytes()),
{
    let bs = sql.as_bytes();
    let n = bs.len();
    let mut i: usize = 0;
    proof {
        assert(bs@.skip(0) =~= bs@);
    }
    while i < n && is_space_u8(bs[i])
        invariant
            0 <= i <= n,
            n == bs@.len(),
            skip_spaces(bs@) == skip_spaces(bs@.skip(i as int)),
        decreases n - i,
    {
        proof {
            assert(bs@.skip(i as int).drop_first() =~= bs@.skip(i + 1));
        }
        i = i + 1;
    }
    let ghost start_seq = bs@.skip(i as int);
    proof {
        if i < n {
            assert(skip_spaces(bs@) == start_seq);
        } else {
            assert(start_seq =~= Seq::<u8>::empty());
            assert(skip_spaces(bs@) =~= Seq::<u8>::empty());
        }
        assert(take_word(skip_spaces(bs@)) == take_word(start_seq));
    }
    let mut w: Vec<u8> = Vec::new();
    proof {
        assert(w@ + take_word(bs@.skip(i as int)).map_values(|b: u8| lower8(b)) =~= take_word(
            start_seq,
        ).map_values(|b: u8| lower8(b)));
    }
    while i < n && !is_space_u8(bs[i])
        invariant
            0 <= i <= n,
            n == bs@.len(),
            take_word(start_seq).map_values(|b: u8| lower8(b)) =~= w@ + take_word(
                bs@.skip(i as int),
            ).map_values(|b: u8| lower8(b)),
        decreases n - i,
    {
        let b = bs[i];
        let lowered: u8 = if 65 <= b && b <= 90 {
            b + 32
        } else {
            b
        };
        let ghost pre_w = w@;
        w.push(lowered);
        proof {
            assert(bs@.skip(i as int).drop_first() =~= bs@.skip(i + 1));
            assert(take_word(bs@.skip(i as int)) == seq![bs@[i as int]] + take_word(
                bs@.skip(i + 1),
            ));
            assert((seq![bs@[i as int]] + take_word(bs@.skip(i + 1))).map_values(
                |b: u8| lower8(b),
            ) =~= seq![lower8(bs@[i as int])] + take_word(bs@.skip(i + 1)).map_values(
                |b: u8| lower8(b),
            ));
            assert(take_word(start_seq).map_values(|b: u8| lower8(b)) =~= w@ + take_word(
                bs@.skip(i + 1),
            ).map_values(|b: u8| lower8(b)));
        }
        i = i + 1;
    }
    proof {
        if i < n {
            assert(take_word(bs@.skip(i as int)) =~= Seq::<u8>::empty());
        } else {
            assert(bs@.skip(i as int) =~= Seq::<u8>::empty());
            assert(take_word(bs@.skip(i as int)) =~= Seq::<u8>::empty());
        }
        assert(first_word_lower(bs@) =~= w@);
    }
    let r = if matches_word6(&w, 115, 101, 108, 101, 99, 116) {
        QueryType::Select
    } else if matches_word6(&w, 105, 110, 115, 101, 114, 116) {
        QueryType::Insert
    } else if matches_word6(&w, 117, 112, 100, 97, 116, 101) {
        QueryType::Update
    } else if matches_word6(&w, 100, 101, 108, 101, 116, 101) {
        QueryType::Delete
    } else if matches_word6(&w, 99, 114, 101, 97, 116, 101) {
        QueryType::Create
    } else if matches_word5(&w, 97, 108, 116, 101, 114) {
        QueryType::Alter
    } else if matches_word4(&w, 100, 114, 111, 112) {
        QueryType::Drop
    } else {
        QueryType::Unknown
    };
    r
}

fn matches_word6(w: &Vec<u8>, a: u8, b: u8, c: u8, d: u8, e: u8, f: u8) -> (r: bool)
    ensures
        r == (w@ == seq![a, b, c, d, e, f]),
{
    let m = w.len() == 6 && w[0] == a && w[1] == b && w[2] == c && w[3] == d && w[4] == e && w[5]
        == f;
    proof {
        if m {
            assert(w@ =~= seq![a, b, c, d, e, f]);
        }
    }
    m
}

fn matches_word5(w: &Vec<u8>, a: u8, b: u8, c: u8, d: u8, e: u8) -> (r: bool)
    ensures
        r == (w@ == seq![a, b, c, d, e]),
{
    let m = w.len() == 5 && w[0] == a && w[1] == b && w[2] == c && w[3] == d && w[4] == e;
    proof {
        if m {
            assert(w@ =~= seq![a, b, c, d, e]);
        }
    }
    m
}

fn matches_word4(w: &Vec<u8>, a: u8, b: u8, c: u8, d: u8) -> (r: bool)
    ensures
        r == (w@ == seq![a, b, c, d]),
{
    let m = w.len() == 4 && w[0] == a && w[1] == b && w[2] == c && w[3] == d;
    proof {
        if m {
            assert(w@ =~= seq![a, b, c, d]);
        }
    }
    m
}

/// Whether the `sqlparser` crate accepts the statement text: its verdict
/// is a function of the text alone, so it can carry a name, though nothing
/// further is assumed of it.
pub uninterp spec fn sql_accepted(s: Seq<char>) -> bool;

/// Relies on `sqlparser::parser::Parser::parse_sql` with the SQLite
/// dialect: it accepts or rejects the statement text, deterministically in
/// the text, which [`sql_accepted`] names.
#[verifier::external_body]
fn check_sql_syntax(sql: &str) -> (r: Result<(), String>)
    ensures
        r is Ok <==> sql_accepted(sql@),
{
    let dialect = sqlparser::dialect::SQLiteDialect {};
    match sqlparser::parser::Parser::parse_sql(&dialect, sql) {
        Ok(_) => Ok(()),
        Err(e) => Err(format!("SQL syntax error: {}", e)),
    }
}

/// Statement intake around one piece of SQL text.
pub struct Parser {
    pub sql: String,
    pub error_recovery: bool,
}

impl Parser {
    pub fn new(sql: &str) -> (r: Self)
        ensures
            r.sql@ == sql@,
            !r.error_recovery,
    {
        Parser { sql: str_to_string(sql), error_recovery: false }
    }

    pub fn with_error_recovery(self) -> (r: Self)
        ensures
            r.sql@ == self.sql@,
            r.error_recovery,
    {
        Parser { sql: self.sql, error_recovery: true }
    }

    /// Classify the statement and keep its text, after the syntax check
    /// passes.  Parsing succeeds exactly when `sqlparser` accepts the text;
    /// on success the statement's kind is exactly what the leading word
    /// announces.
    pub fn parse(&self) -> (r: Result<Statement, String>)
        ensures
            r is Ok <==> sql_accepted(self.sql@),
            r matches Ok(st) ==> {
                &&& st.query_type == spec_classify_sql(vstd::utf8::encode_utf8(self.sql@))
                &&& st.query_text@ == self.sql@
            },
    {
        let query_type = classify_query(self.sql.as_str());
        let statement = Statement { query_type, query_text: self.sql.clone() };
        match check_sql_syntax(self.sql.as_str()) {
            Ok(()) => Ok(statement),
            Err(e) => Err(e),
        }
    }
}

/// Parse one piece of SQL text; succeeds exactly when `sqlparser` accepts
/// it.
pub fn parse_sql(sql: &str) -> (r: Result<Statement, String>)
    ensures
        r is Ok <==> sql_accepted(sql@),
        r matches Ok(st) ==> {
            &&& st.query_type == spec_classify_sql(vstd::utf8::encode_utf8(sql@))
            &&& st.query_text@ == sql@
        },
{
    Parser::new(sql).parse()
}

} // verus!
