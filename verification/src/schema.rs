//! The schema catalog: tables, indexes, views and triggers by name.
//!
//! Names are unique keys; adding under an existing name replaces the old
//! entry, as a map insert would.

use vstd::prelude::*;
use crate::schema_index::IndexSchema;
use crate::schema_table::TableSchema;

verus! {

/// Name of the master schema table.
pub const MASTER_SCHEMA_TABLE: &'static str = "sqlite_master";

/// Name of the temporary master schema table.
pub const TEMP_SCHEMA_TABLE: &'static str = "sqlite_temp_master";

/// Schema format generation the catalog reports.
pub const SCHEMA_FORMAT_NUMBER: u32 = 4;

/// Longest identifier the catalog accepts.
pub const MAX_IDENTIFIER_LENGTH: usize = 128;

/// Position of the object-type column in a schema record.
pub const TYPE_COLUMN: usize = 0;

/// Position of the object-name column in a schema record.
pub const NAME_COLUMN: usize = 1;

/// Position of the table-name column in a schema record.
pub const TBL_NAME_COLUMN: usize = 2;

/// Position of the root-page column in a schema record.
pub const ROOTPAGE_COLUMN: usize = 3;

/// Position of the SQL column in a schema record.
pub const SQL_COLUMN: usize = 4;

/// Kinds of object the schema can hold.
#[derive(Debug, Clone, Copy, PartialEq, Eq, Structural)]
pub enum SchemaObjectType {
    Table,
    Index,
    View,
    Trigger,
    VirtualTable,
    Unknown,
}

/// Index of the first table named `name`, if any.
pub open spec fn spec_find_table(s: Seq<TableSchema>, name: Seq<char>) -> Option<int>
    decreases s.len(),
{
    if s.len() == 0 {
        None
    } else if s[0].name@ == name {
        Some(0)
    } else {
        match spec_find_table(s.drop_first(), name) {
            Some(j) => Some(j + 1),
            None => None,
        }
    }
}

/// Index of the first index schema named `name`, if any.
pub open spec fn spec_find_index(s: Seq<IndexSchema>, name: Seq<char>) -> Option<int>
    decreases s.len(),
{
    if s.len() == 0 {
        None
    } else if s[0].name@ == name {
        Some(0)
    } else {
        match spec_find_index(s.drop_first(), name) {
            Some(j) => Some(j + 1),
            None => None,
        }
    }
}

/// The indexes declared on `table`, in held order.
pub open spec fn spec_indexes_on(s: Seq<IndexSchema>, table: Seq<char>) -> Seq<IndexSchema>
    decreases s.len(),
{
    if s.len() == 0 {
        Seq::empty()
    } else if s[0].table_name@ == table {
        seq![s[0]] + spec_indexes_on(s.drop_first(), table)
    } else {
        spec_indexes_on(s.drop_first(), table)
    }
}

proof fn lemma_find_table_index(s: Seq<TableSchema>, name: Seq<char>)
    ensures
        match spec_find_table(s, name) {
            Some(j) => 0 <= j < s.len() && s[j].name@ == name,
            None => forall|a: int| 0 <= a < s.len() ==> s[a].name@ != name,
        },
    decreases s.len(),
{
    if s.len() > 0 && s[0].name@ != name {
        lemma_find_table_index(s.drop_first(), name);
        match spec_find_table(s.drop_first(), name) {
            Some(j) => {
                assert(s.drop_first()[j] == s[j + 1]);
            },
            None => {
                assert(forall|a: int| 1 <= a < s.len() ==> s[a] == s.drop_first()[a - 1]);
            },
        }
    }
}

proof fn lemma_find_index_index(s: Seq<IndexSchema>, name: Seq<char>)
    ensures
        match spec_find_index(s, name) {
            Some(j) => 0 <= j < s.len() && s[j].name@ == name,
            None => forall|a: int| 0 <= a < s.len() ==> s[a].name@ != name,
        },
    decreases s.len(),
{
    if s.len() > 0 && s[0].name@ != name {
        lemma_find_index_index(s.drop_first(), name);
        match spec_find_index(s.drop_first(), name) {
            Some(j) => {
                assert(s.drop_first()[j] == s[j + 1]);
            },
            None => {
                assert(forall|a: int| 1 <= a < s.len() ==> s[a] == s.drop_first()[a - 1]);
            },
        }
    }
}

proof fn lemma_table_remove_keeps_unique(s: Seq<TableSchema>, k: int)
    requires
        unique_table_names(s),
        0 <= k < s.len(),
    ensures
        unique_table_names(s.remove(k)),
        forall|a: int| 0 <= a < s.remove(k).len() ==> s.remove(k)[a].name@ != s[k].name@,
{
    let t = s.remove(k);
    assert forall|a: int, b: int| 0 <= a < b < t.len() implies t[a].name@ != t[b].name@ by {
        let a0 = if a < k { a } else { a + 1 };
        let b0 = if b < k { b } else { b + 1 };
        assert(t[a] == s[a0] && t[b] == s[b0]);
    }
    assert forall|a: int| 0 <= a < t.len() implies t[a].name@ != s[k].name@ by {
        let a0 = if a < k { a } else { a + 1 };
        assert(t[a] == s[a0]);
    }
}

proof fn lemma_index_remove_keeps_unique(s: Seq<IndexSchema>, k: int)
    requires
        unique_index_names(s),
        0 <= k < s.len(),
    ensures
        unique_index_names(s.remove(k)),
        forall|a: int| 0 <= a < s.remove(k).len() ==> s.remove(k)[a].name@ != s[k].name@,
{
    let t = s.remove(k);
    assert forall|a: int, b: int| 0 <= a < b < t.len() implies t[a].name@ != t[b].name@ by {
        let a0 = if a < k { a } else { a + 1 };
        let b0 = if b < k { b } else { b + 1 };
        assert(t[a] == s[a0] && t[b] == s[b0]);
    }
    assert forall|a: int| 0 <= a < t.len() implies t[a].name@ != s[k].name@ by {
        let a0 = if a < k { a } else { a + 1 };
        assert(t[a] == s[a0]);
    }
}

proof fn lemma_table_remove_keeps_entry(s: Seq<TableSchema>, k: int, j: int)
    requires
        0 <= k < s.len(),
        0 <= j < s.len(),
        j != k,
    ensures
        exists|b: int| 0 <= b < s.remove(k).len() && #[trigger] s.remove(k)[b] == s[j],
{
    let t = s.remove(k);
    if j < k {
        assert(t[j] == s[j]);
    } else {
        assert(t[j - 1] == s[j]);
    }
}

proof fn lemma_index_remove_keeps_entry(s: Seq<IndexSchema>, k: int, j: int)
    requires
        0 <= k < s.len(),
        0 <= j < s.len(),
        j != k,
    ensures
        exists|b: int| 0 <= b < s.remove(k).len() && #[trigger] s.remove(k)[b] == s[j],
{
    let t = s.remove(k);
    if j < k {
        assert(t[j] == s[j]);
    } else {
        assert(t[j - 1] == s[j]);
    }
}

/// No two tables share a name.
pub open spec fn unique_table_names(s: Seq<TableSchema>) -> bool {
    forall|i: int, j: int| 0 <= i < j < s.len() ==> s[i].name@ != s[j].name@
}

/// No two indexes share a name.
pub open spec fn unique_index_names(s: Seq<IndexSchema>) -> bool {
    forall|i: int, j: int| 0 <= i < j < s.len() ==> s[i].name@ != s[j].name@
}

/// The catalog of schema objects.
#[derive(Debug, Clone)]
pub struct SchemaCatalog {
    tables: Vec<TableSchema>,
    indexes: Vec<IndexSchema>,
    views: Vec<(String, String)>,
    triggers: Vec<(String, String)>,
    version: u32,
}

impl SchemaCatalog {
    pub closed spec fn spec_tables(&self) -> Seq<TableSchema> {
        self.tables@
    }

    pub closed spec fn spec_indexes(&self) -> Seq<IndexSchema> {
        self.indexes@
    }

    pub closed spec fn spec_version(&self) -> u32 {
        self.version
    }

    pub closed spec fn spec_views(&self) -> Seq<(String, String)> {
        self.views@
    }

    pub closed spec fn spec_triggers(&self) -> Seq<(String, String)> {
        self.triggers@
    }

    /// Table and index names stay unique.
    pub open spec fn wf(&self) -> bool {
        unique_table_names(self.spec_tables()) && unique_index_names(self.spec_indexes())
    }

    /// An empty catalog at the current schema format.
    pub fn new() -> (r: Self)
        ensures
            r.wf(),
            r.spec_tables().len() == 0,
            r.spec_indexes().len() == 0,
            r.spec_version() == SCHEMA_FORMAT_NUMBER,
    {
        SchemaCatalog {
            tables: Vec::new(),
            indexes: Vec::new(),
            views: Vec::new(),
            triggers: Vec::new(),
            version: SCHEMA_FORMAT_NUMBER,
        }
    }

    fn find_table_slot(&self, name: &String) -> (r: Option<usize>)
        ensures
            match r {
                Some(i) => spec_find_table(self.tables@, name@) == Some(i as int) && i
                    < self.tables@.len(),
                None => spec_find_table(self.tables@, name@) == None::<int>,
            },
    {
        let n = self.tables.len();
        let mut i: usize = 0;
        while i < n
            invariant
                0 <= i <= n,
                n == self.tables@.len(),
                forall|j: int| 0 <= j < i ==> self.tables@[j].name@ != name@,
            decreases n - i,
        {
            if self.tables[i].name == *name {
                proof {
                    lemma_find_table_via(self.tables@, name@, i as int);
                }
                return Some(i);
            }
            i = i + 1;
        }
        proof {
            lemma_find_table_via(self.tables@, name@, n as int);
        }
        None
    }

    fn find_index_slot(&self, name: &String) -> (r: Option<usize>)
        ensures
            match r {
                Some(i) => spec_find_index(self.indexes@, name@) == Some(i as int) && i
                    < self.indexes@.len(),
                None => spec_find_index(self.indexes@, name@) == None::<int>,
            },
    {
        let n = self.indexes.len();
        let mut i: usize = 0;
        while i < n
            invariant
                0 <= i <= n,
                n == self.indexes@.len(),
                forall|j: int| 0 <= j < i ==> self.indexes@[j].name@ != name@,
            decreases n - i,
        {
            if self.indexes[i].name == *name {
                proof {
                    lemma_find_index_via(self.indexes@, name@, i as int);
                }
                return Some(i);
            }
            i = i + 1;
        }
        proof {
            lemma_find_index_via(self.indexes@, name@, n as int);
        }
        None
    }

    /// Put a table in the catalog, replacing any table of the same name.
    /// Tables under every other name survive unchanged, as do the indexes,
    /// views and triggers.
    pub fn add_table(&mut self, table: TableSchema)
        requires
            old(self).wf(),
        ensures
            final(self).wf(),
            spec_find_table(final(self).spec_tables(), table.name@) matches Some(j)
                && final(self).spec_tables()[j] == table,
            final(self).spec_tables().len() <= old(self).spec_tables().len() + 1,
            forall|j: int|
                0 <= j < old(self).spec_tables().len()
                    && #[trigger] old(self).spec_tables()[j].name@ != table.name@
                    ==> exists|b: int|
                    0 <= b < final(self).spec_tables().len()
                        && #[trigger] final(self).spec_tables()[b] == old(self).spec_tables()[j],
            final(self).spec_indexes() == old(self).spec_indexes(),
            final(self).spec_views() == old(self).spec_views(),
            final(self).spec_triggers() == old(self).spec_triggers(),
            final(self).spec_version() == old(self).spec_version(),
    {
        let ghost pre = self.tables@;
        let ghost mut removed_k: Option<int> = None;
        match self.find_table_slot(&table.name) {
            Some(j) => {
                proof {
                    lemma_find_table_index(pre, table.name@);
                }
                self.tables.remove(j);
                proof {
                    lemma_table_remove_keeps_unique(pre, j as int);
                    removed_k = Some(j as int);
                }
            },
            None => {
                proof {
                    lemma_find_table_index(pre, table.name@);
                }
            },
        }
        let ghost mid = self.tables@;
        proof {
            assert(forall|a: int| 0 <= a < mid.len() ==> mid[a].name@ != table.name@);
        }
        self.tables.push(table);
        proof {
            let s = self.tables@;
            assert(forall|a: int| 0 <= a < s.len() - 1 ==> s[a].name@ != table.name@);
            lemma_find_table_via(s, table.name@, s.len() - 1);
            assert forall|j: int|
                0 <= j < pre.len() && #[trigger] pre[j].name@ != table.name@ implies
                exists|b: int| 0 <= b < s.len() && #[trigger] s[b] == pre[j] by {
                match removed_k {
                    Some(k) => {
                        assert(pre[k].name@ == table.name@);
                        lemma_table_remove_keeps_entry(pre, k, j);
                        let b0 = choose|b: int|
                            0 <= b < mid.len() && #[trigger] mid[b] == pre[j];
                        assert(s[b0] == pre[j]);
                    },
                    None => {
                        assert(s[j] == pre[j]);
                    },
                }
            }
        }
    }

    /// Put an index in the catalog, replacing any index of the same name.
    /// Indexes under every other name survive unchanged, as do the tables,
    /// views and triggers.
    pub fn add_index(&mut self, index: IndexSchema)
        requires
            old(self).wf(),
        ensures
            final(self).wf(),
            spec_find_index(final(self).spec_indexes(), index.name@) matches Some(j)
                && final(self).spec_indexes()[j] == index,
            final(self).spec_indexes().len() <= old(self).spec_indexes().len() + 1,
            forall|j: int|
                0 <= j < old(self).spec_indexes().len()
                    && #[trigger] old(self).spec_indexes()[j].name@ != index.name@
                    ==> exists|b: int|
                    0 <= b < final(self).spec_indexes().len()
                        && #[trigger] final(self).spec_indexes()[b] == old(self).spec_indexes()[j],
            final(self).spec_tables() == old(self).spec_tables(),
            final(self).spec_views() == old(self).spec_views(),
            final(self).spec_triggers() == old(self).spec_triggers(),
            final(self).spec_version() == old(self).spec_version(),
    {
        let ghost pre = self.indexes@;
        let ghost mut removed_k: Option<int> = None;
        match self.find_index_slot(&index.name) {
            Some(j) => {
                proof {
                    lemma_find_index_index(pre, index.name@);
                }
                self.indexes.remove(j);
                proof {
                    lemma_index_remove_keeps_unique(pre, j as int);
                    removed_k = Some(j as int);
                }
            },
            None => {
                proof {
                    lemma_find_index_index(pre, index.name@);
                }
            },
        }
        let ghost mid = self.indexes@;
        proof {
            assert(forall|a: int| 0 <= a < mid.len() ==> mid[a].name@ != index.name@);
        }
        self.indexes.push(index);
        proof {
            let s = self.indexes@;
            assert(forall|a: int| 0 <= a < s.len() - 1 ==> s[a].name@ != index.name@);
            lemma_find_index_via(s, index.name@, s.len() - 1);
            assert forall|j: int|
                0 <= j < pre.len() && #[trigger] pre[j].name@ != index.name@ implies
                exists|b: int| 0 <= b < s.len() && #[trigger] s[b] == pre[j] by {
                match removed_k {
                    Some(k) => {
                        assert(pre[k].name@ == index.name@);
                        lemma_index_remove_keeps_entry(pre, k, j);
                        let b0 = choose|b: int|
                            0 <= b < mid.len() && #[trigger] mid[b] == pre[j];
                        assert(s[b0] == pre[j]);
                    },
                    None => {
                        assert(s[j] == pre[j]);
                    },
                }
            }
        }
    }

    /// The table of the given name, if the catalog holds one.
    pub fn get_table(&self, name: &str) -> (r: Option<&TableSchema>)
        ensures
            match spec_find_table(self.spec_tables(), name@) {
                Some(j) => r matches Some(t) && *t == self.spec_tables()[j],
                None => r is None,
            },
    {
        let key = crate::storage::str_to_string(name);
        match self.find_table_slot(&key) {
            Some(j) => Some(&self.tables[j]),
            None => None,
        }
    }

    /// Every table, in held order.
    pub fn get_tables(&self) -> (r: Vec<&TableSchema>)
        ensures
            r@.len() == self.spec_tables().len(),
            forall|i: int| 0 <= i < r@.len() ==> *r@[i] == self.spec_tables()[i],
    {
        let n = self.tables.len();
        let mut out: Vec<&TableSchema> = Vec::new();
        let mut i: usize = 0;
        while i < n
            invariant
                0 <= i <= n,
                n == self.tables@.len(),
                out@.len() == i,
                forall|j: int| 0 <= j < i ==> *out@[j] == self.tables@[j],
            decreases n - i,
        {
            out.push(&self.tables[i]);
            i = i + 1;
        }
        out
    }

    /// Every table's name, in held order.
    pub fn get_table_names(&self) -> (r: Vec<String>)
        ensures
            r@.len() == self.spec_tables().len(),
            forall|i: int| 0 <= i < r@.len() ==> r@[i]@ == self.spec_tables()[i].name@,
    {
        let n = self.tables.len();
        let mut out: Vec<String> = Vec::new();
        let mut i: usize = 0;
        while i < n
            invariant
                0 <= i <= n,
                n == self.tables@.len(),
                out@.len() == i,
                forall|j: int| 0 <= j < i ==> out@[j]@ == self.tables@[j].name@,
            decreases n - i,
        {
            out.push(self.tables[i].name.clone());
            i = i + 1;
        }
        out
    }

    /// The indexes declared on `table_name`, in held order.
    pub fn get_indexes_for_table(&self, table_name: &str) -> (r: Vec<&IndexSchema>)
        ensures
            r@.len() == spec_indexes_on(self.spec_indexes(), table_name@).len(),
            forall|i: int|
                0 <= i < r@.len() ==> *r@[i] == spec_indexes_on(
                    self.spec_indexes(),
                    table_name@,
                )[i],
    {
        let key = crate::storage::str_to_string(table_name);
        let n = self.indexes.len();
        let mut out: Vec<&IndexSchema> = Vec::new();
        let mut i: usize = 0;
        proof {
            lemma_indexes_on_take(self.indexes@, table_name@, 0);
        }
        while i < n
            invariant
                0 <= i <= n,
                n == self.indexes@.len(),
                key@ == table_name@,
                out@.len() == spec_indexes_on(self.indexes@.take(i as int), table_name@).len(),
                forall|j: int|
                    0 <= j < out@.len() ==> *out@[j] == spec_indexes_on(
                        self.indexes@.take(i as int),
                        table_name@,
                    )[j],
            decreases n - i,
        {
            proof {
                lemma_indexes_on_take(self.indexes@, table_name@, i + 1);
            }
            if self.indexes[i].table_name == key {
                out.push(&self.indexes[i]);
            }
            i = i + 1;
        }
        proof {
            assert(self.indexes@.take(n as int) =~= self.indexes@);
        }
        out
    }
}

/// `spec_indexes_on` over one more element of the prefix.
proof fn lemma_indexes_on_take(s: Seq<IndexSchema>, table: Seq<char>, i: int)
    requires
        0 <= i <= s.len(),
    ensures
        i == 0 ==> spec_indexes_on(s.take(0), table) =~= Seq::<IndexSchema>::empty(),
        i > 0 ==> spec_indexes_on(s.take(i), table) =~= spec_indexes_on(s.take(i - 1), table) + (
        if s[i - 1].table_name@ == table {
            seq![s[i - 1]]
        } else {
            Seq::<IndexSchema>::empty()
        }),
    decreases i,
{
    if i == 0 {
        assert(s.take(0) =~= Seq::<IndexSchema>::empty());
    } else {
        lemma_indexes_on_append(s.take(i - 1), s[i - 1], table);
        assert(s.take(i) =~= s.take(i - 1).push(s[i - 1]));
    }
}

/// Appending one schema extends the selection at the back.
proof fn lemma_indexes_on_append(s: Seq<IndexSchema>, x: IndexSchema, table: Seq<char>)
    ensures
        spec_indexes_on(s.push(x), table) =~= spec_indexes_on(s, table) + (
        if x.table_name@ == table {
            seq![x]
        } else {
            Seq::<IndexSchema>::empty()
        }),
    decreases s.len(),
{
    if s.len() == 0 {
        assert(s.push(x).drop_first() =~= Seq::<IndexSchema>::empty());
        assert(s.push(x)[0] == x);
        assert(s.push(x).len() == 1);
        assert(spec_indexes_on(Seq::<IndexSchema>::empty(), table) =~= Seq::<IndexSchema>::empty());
        if x.table_name@ == table {
            assert(spec_indexes_on(s.push(x), table) =~= seq![x]);
            assert(spec_indexes_on(s, table) =~= Seq::<IndexSchema>::empty());
        } else {
            assert(spec_indexes_on(s.push(x), table) =~= Seq::<IndexSchema>::empty());
        }
    } else {
        lemma_indexes_on_append(s.drop_first(), x, table);
        assert(s.push(x).drop_first() =~= s.drop_first().push(x));
        assert(s.push(x)[0] == s[0]);
        let tail: Seq<IndexSchema> = if x.table_name@ == table {
            seq![x]
        } else {
            Seq::empty()
        };
        assert(spec_indexes_on(s.drop_first().push(x), table) =~= spec_indexes_on(
            s.drop_first(),
            table,
        ) + tail);
        if s[0].table_name@ == table {
            assert(spec_indexes_on(s.push(x), table) =~= seq![s[0]] + spec_indexes_on(
                s.drop_first().push(x),
                table,
            ));
            assert(seq![s[0]] + (spec_indexes_on(s.drop_first(), table) + tail) =~= (seq![s[0]]
                + spec_indexes_on(s.drop_first(), table)) + tail);
        } else {
            assert(spec_indexes_on(s.push(x), table) =~= spec_indexes_on(
                s.drop_first().push(x),
                table,
            ));
        }
    }
}

proof fn lemma_find_table_via(s: Seq<TableSchema>, name: Seq<char>, i: int)
    requires
        0 <= i <= s.len(),
        forall|j: int| 0 <= j < i ==> s[j].name@ != name,
    ensures
        i < s.len() && s[i].name@ == name ==> spec_find_table(s, name) == Some(i),
        i == s.len() ==> spec_find_table(s, name) == None::<int>,
    decreases s.len(),
{
    if s.len() > 0 {
        if s[0].name@ == name {
        } else {
            if i > 0 {
                lemma_find_table_via(s.drop_first(), name, i - 1);
            } else {
                lemma_find_table_via(s.drop_first(), name, 0);
            }
        }
    }
}

proof fn lemma_find_index_via(s: Seq<IndexSchema>, name: Seq<char>, i: int)
    requires
        0 <= i <= s.len(),
        forall|j: int| 0 <= j < i ==> s[j].name@ != name,
    ensures
        i < s.len() && s[i].name@ == name ==> spec_find_index(s, name) == Some(i),
        i == s.len() ==> spec_find_index(s, name) == None::<int>,
    decreases s.len(),
{
    if s.len() > 0 {
        if s[0].name@ == name {
        } else {
            if i > 0 {
                lemma_find_index_via(s.drop_first(), name, i - 1);
            } else {
                lemma_find_index_via(s.drop_first(), name, 0);
            }
        }
    }
}

} // verus!
