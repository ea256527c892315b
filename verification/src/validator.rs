//! Statement validation and light semantic analysis over a known set of
//! tables.

use vstd::prelude::*;
use crate::ast::{QueryType, Statement};
use crate::storage::str_to_string;

verus! {

/// Validates statements for correctness.
pub struct QueryValidator {
    errors: Vec<String>,
    warnings: Vec<String>,
}

impl QueryValidator {
    pub closed spec fn spec_errors(&self) -> Seq<String> {
        self.errors@
    }

    pub closed spec fn spec_warnings(&self) -> Seq<String> {
        self.warnings@
    }

    pub fn new() -> (r: Self)
        ensures
            r.spec_errors().len() == 0,
            r.spec_warnings().len() == 0,
    {
        QueryValidator { errors: Vec::new(), warnings: Vec::new() }
    }

    /// Check a statement.  Every known statement kind passes; only a
    /// statement of unknown kind is rejected, with that message.
    pub fn validate(&mut self, stmt: &Statement) -> (r: Result<(), String>)
        ensures
            final(self).spec_errors() == old(self).spec_errors(),
            final(self).spec_warnings() == old(self).spec_warnings(),
            match r {
                Ok(()) => !(stmt.query_type is Unknown),
                Err(msg) => stmt.query_type is Unknown && msg@ == "Unknown query type"@,
            },
    {
        match stmt.query_type {
            QueryType::Select => self.validate_select(stmt),
            QueryType::Insert => self.validate_insert(stmt),
            QueryType::Update => self.validate_update(stmt),
            QueryType::Delete => self.validate_delete(stmt),
            QueryType::Create => self.validate_create(stmt),
            QueryType::Alter => self.validate_alter(stmt),
            QueryType::Drop => self.validate_drop(stmt),
            QueryType::Unknown => Err(str_to_string("Unknown query type")),
        }
    }

    fn validate_select(&mut self, _stmt: &Statement) -> (r: Result<(), String>)
        ensures
            r is Ok,
            final(self).spec_errors() == old(self).spec_errors(),
            final(self).spec_warnings() == old(self).spec_warnings(),
    {
        Ok(())
    }

    fn validate_insert(&mut self, _stmt: &Statement) -> (r: Result<(), String>)
        ensures
            r is Ok,
            final(self).spec_errors() == old(self).spec_errors(),
            final(self).spec_warnings() == old(self).spec_warnings(),
    {
        Ok(())
    }

    fn validate_update(&mut self, _stmt: &Statement) -> (r: Result<(), String>)
        ensures
            r is Ok,
            final(self).spec_errors() == old(self).spec_errors(),
            final(self).spec_warnings() == old(self).spec_warnings(),
    {
        Ok(())
    }

    fn validate_delete(&mut self, _stmt: &Statement) -> (r: Result<(), String>)
        ensures
            r is Ok,
            final(self).spec_errors() == old(self).spec_errors(),
            final(self).spec_warnings() == old(self).spec_warnings(),
    {
        Ok(())
    }

    fn validate_create(&mut self, _stmt: &Statement) -> (r: Result<(), String>)
        ensures
            r is Ok,
            final(self).spec_errors() == old(self).spec_errors(),
            final(self).spec_warnings() == old(self).spec_warnings(),
    {
        Ok(())
    }

    fn validate_alter(&mut self, _stmt: &Statement) -> (r: Result<(), String>)
        ensures
            r is Ok,
            final(self).spec_errors() == old(self).spec_errors(),
            final(self).spec_warnings() == old(self).spec_warnings(),
    {
        Ok(())
    }

    fn validate_drop(&mut self, _stmt: &Statement) -> (r: Result<(), String>)
        ensures
            r is Ok,
            final(self).spec_errors() == old(self).spec_errors(),
            final(self).spec_warnings() == old(self).spec_warnings(),
    {
        Ok(())
    }

    pub fn get_errors(&self) -> (r: &Vec<String>)
        ensures
            r@ == self.spec_errors(),
    {
        &self.errors
    }

    pub fn get_warnings(&self) -> (r: &Vec<String>)
        ensures
            r@ == self.spec_warnings(),
    {
        &self.warnings
    }
}

/// Index of the first table entry named `name`, if any.
pub open spec fn spec_find_table_entry(s: Seq<(String, Vec<String>)>, name: Seq<char>) -> Option<
    int,
>
    decreases s.len(),
{
    if s.len() == 0 {
        None
    } else if s[0].0@ == name {
        Some(0)
    } else {
        match spec_find_table_entry(s.drop_first(), name) {
            Some(j) => Some(j + 1),
            None => None,
        }
    }
}

/// Whether a column name occurs among the given columns.
pub open spec fn spec_has_column(cols: Seq<String>, name: Seq<char>) -> bool {
    exists|i: int| 0 <= i < cols.len() && #[trigger] cols[i]@ == name
}

/// How many known tables carry a column of the given name.
pub open spec fn spec_tables_with_column(s: Seq<(String, Vec<String>)>, name: Seq<char>) -> int
    decreases s.len(),
{
    if s.len() == 0 {
        0
    } else {
        (if spec_has_column(s[0].1@, name) {
            1int
        } else {
            0int
        }) + spec_tables_with_column(s.drop_first(), name)
    }
}

/// Semantic analysis over a registry of tables and their columns.
pub struct SemanticAnalyzer {
    tables: Vec<(String, Vec<String>)>,
}

impl SemanticAnalyzer {
    pub closed spec fn spec_table_entries(&self) -> Seq<(String, Vec<String>)> {
        self.tables@
    }

    /// Table names stay unique.
    pub open spec fn wf(&self) -> bool {
        forall|i: int, j: int|
            0 <= i < j < self.spec_table_entries().len() ==> self.spec_table_entries()[i].0@
                != self.spec_table_entries()[j].0@
    }

    pub fn new() -> (r: Self)
        ensures
            r.wf(),
            r.spec_table_entries().len() == 0,
    {
        SemanticAnalyzer { tables: Vec::new() }
    }

    fn find_table(&self, name: &String) -> (r: Option<usize>)
        ensures
            match r {
                Some(i) => spec_find_table_entry(self.spec_table_entries(), name@) == Some(i as int)
                    && i < self.spec_table_entries().len(),
                None => spec_find_table_entry(self.spec_table_entries(), name@) == None::<int>,
            },
    {
        let n = self.tables.len();
        let mut i: usize = 0;
        while i < n
            invariant
                0 <= i <= n,
                n == self.tables@.len(),
                forall|j: int| 0 <= j < i ==> self.tables@[j].0@ != name@,
            decreases n - i,
        {
            if self.tables[i].0 == *name {
                proof {
                    lemma_find_table_entry_via(self.tables@, name@, i as int);
                }
                return Some(i);
            }
            i = i + 1;
        }
        proof {
            lemma_find_table_entry_via(self.tables@, name@, n as int);
        }
        None
    }

    /// Register a table's columns, replacing any earlier registration of
    /// the same table.  Registrations under every other name survive
    /// unchanged.
    pub fn add_table(&mut self, table_name: &str, columns: Vec<String>)
        requires
            old(self).wf(),
        ensures
            final(self).wf(),
            spec_find_table_entry(final(self).spec_table_entries(), table_name@) matches Some(j)
                && final(self).spec_table_entries()[j].1@ == columns@,
            final(self).spec_table_entries().len() <= old(self).spec_table_entries().len() + 1,
            forall|j: int|
                0 <= j < old(self).spec_table_entries().len()
                    && #[trigger] old(self).spec_table_entries()[j].0@ != table_name@
                    ==> exists|b: int|
                    0 <= b < final(self).spec_table_entries().len()
                        && #[trigger] final(self).spec_table_entries()[b] == old(
                        self,
                    ).spec_table_entries()[j],
    {
        let key = str_to_string(table_name);
        let ghost pre = self.tables@;
        let ghost mut removed_k: Option<int> = None;
        match self.find_table(&key) {
            Some(j) => {
                proof {
                    lemma_find_table_entry_index(pre, table_name@);
                }
                self.tables.remove(j);
                proof {
                    lemma_table_entry_remove_keeps_unique(pre, j as int);
                    removed_k = Some(j as int);
                }
            },
            None => {
                proof {
                    lemma_find_table_entry_index(pre, table_name@);
                }
            },
        }
        let ghost mid = self.tables@;
        proof {
            assert(forall|a: int| 0 <= a < mid.len() ==> mid[a].0@ != table_name@);
        }
        self.tables.push((key, columns));
        proof {
            let s = self.tables@;
            assert(forall|a: int| 0 <= a < s.len() - 1 ==> s[a].0@ != table_name@);
            lemma_find_table_entry_via(s, table_name@, s.len() - 1);
            assert forall|j: int|
                0 <= j < pre.len() && #[trigger] pre[j].0@ != table_name@ implies
                exists|b: int| 0 <= b < s.len() && #[trigger] s[b] == pre[j] by {
                match removed_k {
                    Some(k) => {
                        assert(pre[k].0@ == table_name@);
                        lemma_table_entry_remove_keeps_entry(pre, k, j);
                        let b0 = choose|b: int|
                            0 <= b < mid.len() && #[trigger] mid[b] == pre[j];
                        assert(s[b0] == pre[j]);
                    },
                    None => {
                        assert(s[j] == pre[j]);
                    },
                }
            }
        }
    }

    /// Analyze a statement against the registry; every statement kind
    /// passes analysis.
    pub fn analyze(&self, stmt: &Statement) -> (r: Result<(), String>)
        ensures
            r is Ok,
    {
        match stmt.query_type {
            QueryType::Select => self.analyze_select(stmt),
            _ => Ok(()),
        }
    }

    fn analyze_select(&self, _stmt: &Statement) -> (r: Result<(), String>)
        ensures
            r is Ok,
    {
        Ok(())
    }

    /// Whether the named table is known and carries the named column.
    pub fn check_column_exists(&self, table: &str, column: &str) -> (r: bool)
        ensures
            r == match spec_find_table_entry(self.spec_table_entries(), table@) {
                Some(j) => spec_has_column(self.spec_table_entries()[j].1@, column@),
                None => false,
            },
    {
        let tkey = str_to_string(table);
        let ckey = str_to_string(column);
        match self.find_table(&tkey) {
            Some(j) => {
                proof {
                    lemma_find_table_entry_index(self.tables@, table@);
                }
                has_column(&self.tables[j].1, &ckey)
            },
            None => false,
        }
    }

    /// Whether a column name occurs in more than one known table.
    pub fn is_column_ambiguous(&self, column: &str) -> (r: bool)
        ensures
            r == (spec_tables_with_column(self.spec_table_entries(), column@) > 1),
    {
        let ckey = str_to_string(column);
        let n = self.tables.len();
        let mut count: usize = 0;
        let mut i: usize = 0;
        proof {
            lemma_tables_with_column_take(self.tables@, column@, 0);
        }
        while i < n
            invariant
                0 <= i <= n,
                n == self.tables@.len(),
                ckey@ == column@,
                count <= i,
                count == spec_tables_with_column(self.tables@.take(i as int), column@),
            decreases n - i,
        {
            proof {
                lemma_tables_with_column_take(self.tables@, column@, i + 1);
            }
            if has_column(&self.tables[i].1, &ckey) {
                count = count + 1;
            }
            i = i + 1;
        }
        proof {
            assert(self.tables@.take(n as int) =~= self.tables@);
        }
        count > 1
    }
}

/// Whether `cols` holds a string equal to `name`.
fn has_column(cols: &Vec<String>, name: &String) -> (r: bool)
    ensures
        r == spec_has_column(cols@, name@),
{
    let n = cols.len();
    let mut i: usize = 0;
    while i < n
        invariant
            0 <= i <= n,
            n == cols@.len(),
            forall|j: int| 0 <= j < i ==> cols@[j]@ != name@,
        decreases n - i,
    {
        if cols[i] == *name {
            proof {
                assert(cols@[i as int]@ == name@);
            }
            return true;
        }
        i = i + 1;
    }
    false
}

proof fn lemma_find_table_entry_via(s: Seq<(String, Vec<String>)>, name: Seq<char>, i: int)
    requires
        0 <= i <= s.len(),
        forall|j: int| 0 <= j < i ==> s[j].0@ != name,
    ensures
        i < s.len() && s[i].0@ == name ==> spec_find_table_entry(s, name) == Some(i),
        i == s.len() ==> spec_find_table_entry(s, name) == None::<int>,
    decreases s.len(),
{
    if s.len() > 0 {
        if s[0].0@ == name {
        } else {
            if i > 0 {
                lemma_find_table_entry_via(s.drop_first(), name, i - 1);
            } else {
                lemma_find_table_entry_via(s.drop_first(), name, 0);
            }
        }
    }
}

proof fn lemma_find_table_entry_index(s: Seq<(String, Vec<String>)>, name: Seq<char>)
    ensures
        match spec_find_table_entry(s, name) {
            Some(j) => 0 <= j < s.len() && s[j].0@ == name,
            None => forall|a: int| 0 <= a < s.len() ==> s[a].0@ != name,
        },
    decreases s.len(),
{
    if s.len() > 0 && s[0].0@ != name {
        lemma_find_table_entry_index(s.drop_first(), name);
        match spec_find_table_entry(s.drop_first(), name) {
            Some(j) => {
                assert(s.drop_first()[j] == s[j + 1]);
            },
            None => {
                assert(forall|a: int| 1 <= a < s.len() ==> s[a] == s.drop_first()[a - 1]);
            },
        }
    }
}

proof fn lemma_table_entry_remove_keeps_entry(s: Seq<(String, Vec<String>)>, k: int, j: int)
    requires
        0 <= k < s.len(),
        0 <= j < s.len(),
        j != k,
    ensures
        exists|b: int| 0 <= b < s.remove(k).len() && #[trigger] s.remove(k)[b] == s[j],
{
    let t = s.remove(k);
    if j < k {
        assert(t[j] == s[j]);
    } else {
        assert(t[j - 1] == s[j]);
    }
}

proof fn lemma_table_entry_remove_keeps_unique(s: Seq<(String, Vec<String>)>, k: int)
    requires
        forall|i: int, j: int| 0 <= i < j < s.len() ==> s[i].0@ != s[j].0@,
        0 <= k < s.len(),
    ensures
        forall|i: int, j: int|
            0 <= i < j < s.remove(k).len() ==> s.remove(k)[i].0@ != s.remove(k)[j].0@,
        forall|a: int| 0 <= a < s.remove(k).len() ==> s.remove(k)[a].0@ != s[k].0@,
{
    let t = s.remove(k);
    assert forall|a: int, b: int| 0 <= a < b < t.len() implies t[a].0@ != t[b].0@ by {
        let a0 = if a < k { a } else { a + 1 };
        let b0 = if b < k { b } else { b + 1 };
        assert(t[a] == s[a0] && t[b] == s[b0]);
    }
    assert forall|a: int| 0 <= a < t.len() implies t[a].0@ != s[k].0@ by {
        let a0 = if a < k { a } else { a + 1 };
        assert(t[a] == s[a0]);
    }
}

/// `spec_tables_with_column` over one more element of the prefix.
proof fn lemma_tables_with_column_take(s: Seq<(String, Vec<String>)>, name: Seq<char>, i: int)
    requires
        0 <= i <= s.len(),
    ensures
        i == 0 ==> spec_tables_with_column(s.take(0), name) == 0,
        i > 0 ==> spec_tables_with_column(s.take(i), name) == spec_tables_with_column(
            s.take(i - 1),
            name,
        ) + (if spec_has_column(s[i - 1].1@, name) {
            1int
        } else {
            0int
        }),
    decreases i,
{
    if i == 0 {
        assert(s.take(0) =~= Seq::<(String, Vec<String>)>::empty());
    } else {
        lemma_tables_with_column_push(s.take(i - 1), s[i - 1], name);
        assert(s.take(i) =~= s.take(i - 1).push(s[i - 1]));
    }
}

proof fn lemma_tables_with_column_push(s: Seq<(String, Vec<String>)>, x: (String, Vec<String>), name: Seq<char>)
    ensures
        spec_tables_with_column(s.push(x), name) == spec_tables_with_column(s, name) + (
        if spec_has_column(x.1@, name) {
            1int
        } else {
            0int
        }),
    decreases s.len(),
{
    if s.len() == 0 {
        assert(s.push(x).drop_first() =~= Seq::<(String, Vec<String>)>::empty());
        assert(s.push(x)[0] == x);
        assert(spec_tables_with_column(Seq::<(String, Vec<String>)>::empty(), name) == 0);
    } else {
        lemma_tables_with_column_push(s.drop_first(), x, name);
        assert(s.push(x).drop_first() =~= s.drop_first().push(x));
        assert(s.push(x)[0] == s[0]);
    }
}

} // verus!
