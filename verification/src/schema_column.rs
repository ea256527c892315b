//! Column schemas and the affinity rules that classify their declared
//! types.

use vstd::prelude::*;
use vstd::string::StringSliceAdditionalSpecFns;

verus! {

/// Storage affinities a column can carry.
#[derive(Debug, Clone, Copy, PartialEq, Eq, Structural)]
pub enum ColumnAffinity {
    Text,
    Numeric,
    Integer,
    Real,
    Blob,
    NoAffinity,
}

/// Constraints a column can declare.
#[derive(Debug, Clone, PartialEq)]
pub enum ConstraintType {
    NotNull,
    PrimaryKey,
    Unique,
    ForeignKey { table: String, column: String },
    Check { expression: String },
    Default { value: String },
    Collate { collation: String },
}

/// ASCII upper-casing of one byte.
pub open spec fn upper8(b: u8) -> u8 {
    if 97 <= b <= 122 {
        (b - 32) as u8
    } else {
        b
    }
}

/// Whether `p` occurs contiguously in `h`.
pub open spec fn spec_contains(h: Seq<u8>, p: Seq<u8>) -> bool {
    exists|k: int| 0 <= k <= h.len() - p.len() && #[trigger] h.subrange(k, k + p.len()) == p
}

/// The affinity the declared type's bytes select, by the upper-cased
/// substrings they carry.
pub open spec fn spec_affinity(s: Seq<u8>) -> ColumnAffinity {
    let u = s.map_values(|b: u8| upper8(b));
    if spec_contains(u, seq![73u8, 78u8, 84u8]) {  // INT
        ColumnAffinity::Integer
    } else if spec_contains(u, seq![67u8, 72u8, 65u8, 82u8]) || spec_contains(
        u,
        seq![67u8, 76u8, 79u8, 66u8],
    ) || spec_contains(u, seq![84u8, 69u8, 88u8, 84u8]) {  // CHAR, CLOB, TEXT
        ColumnAffinity::Text
    } else if spec_contains(u, seq![66u8, 76u8, 79u8, 66u8]) || s.len() == 0 {  // BLOB
        ColumnAffinity::Blob
    } else if spec_contains(u, seq![82u8, 69u8, 65u8, 76u8]) || spec_contains(
        u,
        seq![70u8, 76u8, 79u8, 65u8],
    ) || spec_contains(u, seq![68u8, 79u8, 85u8, 66u8]) {  // REAL, FLOA, DOUB
        ColumnAffinity::Real
    } else {
        ColumnAffinity::Numeric
    }
}

/// Bytes a value of the given affinity is charged in estimates.
pub open spec fn spec_affinity_size(a: ColumnAffinity) -> int {
    match a {
        ColumnAffinity::Integer => 8,
        ColumnAffinity::Real => 8,
        ColumnAffinity::Text => 32,
        ColumnAffinity::Blob => 100,
        ColumnAffinity::Numeric => 8,
        ColumnAffinity::NoAffinity => 0,
    }
}

/// One column of a table.
#[derive(Debug, Clone)]
pub struct ColumnSchema {
    pub name: String,
    pub data_type: String,
    pub position: usize,
    pub is_nullable: bool,
    pub default_value: Option<String>,
    pub is_primary_key: bool,
}

impl ColumnSchema {
    /// The affinity the declared type selects, by the ASCII-case-insensitive
    /// substring rules.
    pub fn get_affinity(&self) -> (r: ColumnAffinity)
        ensures
            r == spec_affinity(vstd::utf8::encode_utf8(self.data_type@)),
    {
        let bs = self.data_type.as_str().as_bytes();
        let upper = upper_bytes(bs);
        let ghost u = bs@.map_values(|b: u8| upper8(b));
        if contains_bytes3(&upper, 73, 78, 84) {
            ColumnAffinity::Integer
        } else if contains_bytes4(&upper, 67, 72, 65, 82) || contains_bytes4(&upper, 67, 76, 79, 66)
            || contains_bytes4(&upper, 84, 69, 88, 84) {
            ColumnAffinity::Text
        } else if contains_bytes4(&upper, 66, 76, 79, 66) || bs.len() == 0 {
            ColumnAffinity::Blob
        } else if contains_bytes4(&upper, 82, 69, 65, 76) || contains_bytes4(&upper, 70, 76, 79, 65)
            || contains_bytes4(&upper, 68, 79, 85, 66) {
            ColumnAffinity::Real
        } else {
            ColumnAffinity::Numeric
        }
    }

    /// Storage the column is charged in size estimates.
    pub fn estimate_storage_size(&self) -> (r: usize)
        ensures
            r == spec_affinity_size(spec_affinity(vstd::utf8::encode_utf8(self.data_type@))),
    {
        match self.get_affinity() {
            ColumnAffinity::Integer => 8,
            ColumnAffinity::Real => 8,
            ColumnAffinity::Text => 32,
            ColumnAffinity::Blob => 100,
            ColumnAffinity::Numeric => 8,
            ColumnAffinity::NoAffinity => 0,
        }
    }

    /// Whether the column indexes well: everything but large blobs, and the
    /// blob estimate stays under the threshold anyway.
    pub fn is_indexable(&self) -> (r: bool)
        ensures
            r == (spec_affinity(vstd::utf8::encode_utf8(self.data_type@)) != ColumnAffinity::Blob
                || spec_affinity_size(spec_affinity(vstd::utf8::encode_utf8(self.data_type@)))
                < 1000),
    {
        let a = self.get_affinity();
        let not_blob = match a {
            ColumnAffinity::Blob => false,
            _ => true,
        };
        not_blob || self.estimate_storage_size() < 1000
    }

    /// The SQL fragment declaring this column.
    pub fn get_sql_definition(&self) -> (r: String)
        ensures
            r@ == self.name@ + " "@ + self.data_type@ + (if self.is_primary_key {
                " PRIMARY KEY"@
            } else {
                Seq::<char>::empty()
            }) + (if !self.is_nullable {
                " NOT NULL"@
            } else {
                Seq::<char>::empty()
            }) + (match self.default_value {
                Some(d) => " DEFAULT "@ + d@,
                None => Seq::<char>::empty(),
            }),
    {
        let mut sql = self.name.clone();
        sql.append(" ");
        sql.append(self.data_type.as_str());
        if self.is_primary_key {
            sql.append(" PRIMARY KEY");
        }
        if !self.is_nullable {
            sql.append(" NOT NULL");
        }
        match &self.default_value {
            Some(d) => {
                sql.append(" DEFAULT ");
                sql.append(d.as_str());
            },
            None => {},
        }
        proof {
            assert(sql@ =~= self.name@ + " "@ + self.data_type@ + (if self.is_primary_key {
                " PRIMARY KEY"@
            } else {
                Seq::<char>::empty()
            }) + (if !self.is_nullable {
                " NOT NULL"@
            } else {
                Seq::<char>::empty()
            }) + (match self.default_value {
                Some(d) => " DEFAULT "@ + d@,
                None => Seq::<char>::empty(),
            }));
        }
        sql
    }
}

/// The bytes of `bs`, upper-cased ASCII-wise.
fn upper_bytes(bs: &[u8]) -> (r: Vec<u8>)
    ensures
        r@ == bs@.map_values(|b: u8| upper8(b)),
{
    let mut out: Vec<u8> = Vec::new();
    let mut i: usize = 0;
    proof {
        assert(out@ =~= bs@.subrange(0, 0).map_values(|b: u8| upper8(b)));
    }
    while i < bs.len()
        invariant
            0 <= i <= bs@.len(),
            out@ =~= bs@.subrange(0, i as int).map_values(|b: u8| upper8(b)),
        decreases bs@.len() - i,
    {
        let b = bs[i];
        let u: u8 = if 97 <= b && b <= 122 {
            b - 32
        } else {
            b
        };
        out.push(u);
        proof {
            assert(out@ =~= bs@.subrange(0, i + 1).map_values(|b: u8| upper8(b)));
        }
        i = i + 1;
    }
    proof {
        assert(bs@.subrange(0, bs@.len() as int) =~= bs@);
    }
    out
}

/// Whether the three bytes occur contiguously in `h`.
#[verifier::loop_isolation(false)]
fn contains_bytes3(h: &Vec<u8>, a: u8, b: u8, c: u8) -> (r: bool)
    ensures
        r == spec_contains(h@, seq![a, b, c]),
{
    let ghost p = seq![a, b, c];
    if h.len() < 3 {
        proof {
            assert(!spec_contains(h@, p));
        }
        return false;
    }
    let last = h.len() - 3;
    let mut k: usize = 0;
    loop
        invariant
            0 <= k <= last + 1,
            last == h@.len() - 3,
            h@.len() >= 3,
            last + 3 <= usize::MAX,
            forall|j: int| 0 <= j < k ==> #[trigger] h@.subrange(j, j + 3) != p,
        decreases last + 1 - k,
    {
        if k > last {
            proof {
                assert(p.len() == 3);
                assert forall|k2: int|
                    0 <= k2 <= h@.len() - p.len() implies #[trigger] h@.subrange(
                    k2,
                    k2 + p.len(),
                ) != p by {
                    assert(h@.subrange(k2, k2 + 3) != p);
                }
                assert(!spec_contains(h@, p));
            }
            return false;
        }
        if h[k] == a && h[k + 1] == b && h[k + 2] == c {
            proof {
                assert(p.len() == 3);
                assert(h@.subrange(k as int, k as int + p.len()) =~= p);
                assert(spec_contains(h@, p));
            }
            return true;
        }
        proof {
            if h@.subrange(k as int, k + 3) == p {
                assert(h@.subrange(k as int, k + 3)[0] == h@[k as int]);
                assert(h@.subrange(k as int, k + 3)[1] == h@[k + 1]);
                assert(h@.subrange(k as int, k + 3)[2] == h@[k + 2]);
                assert(false);
            }
        }
        k = k + 1;
    }
}

/// Whether the four bytes occur contiguously in `h`.
#[verifier::loop_isolation(false)]
fn contains_bytes4(h: &Vec<u8>, a: u8, b: u8, c: u8, d: u8) -> (r: bool)
    ensures
        r == spec_contains(h@, seq![a, b, c, d]),
{
    let ghost p = seq![a, b, c, d];
    if h.len() < 4 {
        proof {
            assert(!spec_contains(h@, p));
        }
        return false;
    }
    let last = h.len() - 4;
    let mut k: usize = 0;
    loop
        invariant
            0 <= k <= last + 1,
            last == h@.len() - 4,
            h@.len() >= 4,
            last + 4 <= usize::MAX,
            forall|j: int| 0 <= j < k ==> #[trigger] h@.subrange(j, j + 4) != p,
        decreases last + 1 - k,
    {
        if k > last {
            proof {
                assert(p.len() == 4);
                assert forall|k2: int|
                    0 <= k2 <= h@.len() - p.len() implies #[trigger] h@.subrange(
                    k2,
                    k2 + p.len(),
                ) != p by {
                    assert(h@.subrange(k2, k2 + 4) != p);
                }
                assert(!spec_contains(h@, p));
            }
            return false;
        }
        if h[k] == a && h[k + 1] == b && h[k + 2] == c && h[k + 3] == d {
            proof {
                assert(p.len() == 4);
                assert(h@.subrange(k as int, k as int + p.len()) =~= p);
                assert(spec_contains(h@, p));
            }
            return true;
        }
        proof {
            if h@.subrange(k as int, k + 4) == p {
                assert(h@.subrange(k as int, k + 4)[0] == h@[k as int]);
                assert(h@.subrange(k as int, k + 4)[1] == h@[k + 1]);
                assert(h@.subrange(k as int, k + 4)[2] == h@[k + 2]);
                assert(h@.subrange(k as int, k + 4)[3] == h@[k + 3]);
                assert(false);
            }
        }
        k = k + 1;
    }
}

} // verus!
