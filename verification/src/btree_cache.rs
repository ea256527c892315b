//! A least-recently-used cache of b-tree pages with hit/miss accounting.
//!
//! Entries live in a vector keyed by page id, unique by construction; the
//! LRU order is a second vector of ids, oldest first.

use vstd::prelude::*;
use crate::btree::BTreeError;
use crate::btree_node::{BTreeNode, PageId};
use crate::engine::EngineStats;
use crate::text::{dec_chars, digit_char, two_digits, u64_to_dec, usize_to_dec};

verus! {

/// Index of the first entry for `id`, if any.
pub open spec fn spec_find_entry(s: Seq<(PageId, BTreeNode)>, id: PageId) -> Option<int>
    decreases s.len(),
{
    if s.len() == 0 {
        None
    } else if s[0].0 == id {
        Some(0)
    } else {
        match spec_find_entry(s.drop_first(), id) {
            Some(j) => Some(j + 1),
            None => None,
        }
    }
}

/// Index of the first occurrence of `id`, if any.
pub open spec fn spec_find_id(s: Seq<PageId>, id: PageId) -> Option<int>
    decreases s.len(),
{
    if s.len() == 0 {
        None
    } else if s[0] == id {
        Some(0)
    } else {
        match spec_find_id(s.drop_first(), id) {
            Some(j) => Some(j + 1),
            None => None,
        }
    }
}

/// An LRU touch: the first occurrence of `id` moves to the back.
pub open spec fn spec_lru_touch(s: Seq<PageId>, id: PageId) -> Seq<PageId> {
    match spec_find_id(s, id) {
        Some(j) => s.remove(j).push(id),
        None => s.push(id),
    }
}

proof fn lemma_find_entry(s: Seq<(PageId, BTreeNode)>, id: PageId, i: int)
    requires
        0 <= i <= s.len(),
        forall|j: int| 0 <= j < i ==> s[j].0 != id,
    ensures
        i < s.len() && s[i].0 == id ==> spec_find_entry(s, id) == Some(i),
        i == s.len() ==> spec_find_entry(s, id) == None::<int>,
    decreases s.len(),
{
    if s.len() > 0 {
        if s[0].0 == id {
        } else {
            if i > 0 {
                lemma_find_entry(s.drop_first(), id, i - 1);
            } else {
                lemma_find_entry(s.drop_first(), id, 0);
            }
        }
    }
}

proof fn lemma_find_id(s: Seq<PageId>, id: PageId, i: int)
    requires
        0 <= i <= s.len(),
        forall|j: int| 0 <= j < i ==> s[j] != id,
    ensures
        i < s.len() && s[i] == id ==> spec_find_id(s, id) == Some(i),
        i == s.len() ==> spec_find_id(s, id) == None::<int>,
    decreases s.len(),
{
    if s.len() > 0 {
        if s[0] == id {
        } else {
            if i > 0 {
                lemma_find_id(s.drop_first(), id, i - 1);
            } else {
                lemma_find_id(s.drop_first(), id, 0);
            }
        }
    }
}

/// No two entries share a page id.
pub open spec fn unique_ids(s: Seq<(PageId, BTreeNode)>) -> bool {
    forall|i: int, j: int| 0 <= i < j < s.len() ==> s[i].0 != s[j].0
}

/// No id occurs twice.
pub open spec fn unique_pids(s: Seq<PageId>) -> bool {
    forall|i: int, j: int| 0 <= i < j < s.len() ==> s[i] != s[j]
}

proof fn lemma_pids_remove_keeps_unique(s: Seq<PageId>, k: int)
    requires
        unique_pids(s),
        0 <= k < s.len(),
    ensures
        unique_pids(s.remove(k)),
        forall|a: int| 0 <= a < s.remove(k).len() ==> s.remove(k)[a] != s[k],
{
    let t = s.remove(k);
    assert forall|a: int, b: int| 0 <= a < b < t.len() implies t[a] != t[b] by {
        let a0 = if a < k { a } else { a + 1 };
        let b0 = if b < k { b } else { b + 1 };
        assert(t[a] == s[a0] && t[b] == s[b0]);
    }
    assert forall|a: int| 0 <= a < t.len() implies t[a] != s[k] by {
        let a0 = if a < k { a } else { a + 1 };
        assert(t[a] == s[a0]);
    }
}

proof fn lemma_find_entry_index(s: Seq<(PageId, BTreeNode)>, id: PageId)
    ensures
        match spec_find_entry(s, id) {
            Some(j) => 0 <= j < s.len() && s[j].0 == id,
            None => forall|a: int| 0 <= a < s.len() ==> s[a].0 != id,
        },
    decreases s.len(),
{
    if s.len() > 0 && s[0].0 != id {
        lemma_find_entry_index(s.drop_first(), id);
        match spec_find_entry(s.drop_first(), id) {
            Some(j) => {
                assert(s.drop_first()[j] == s[j + 1]);
            },
            None => {
                assert(forall|a: int| 1 <= a < s.len() ==> s[a] == s.drop_first()[a - 1]);
            },
        }
    }
}

proof fn lemma_find_id_index(s: Seq<PageId>, id: PageId)
    ensures
        match spec_find_id(s, id) {
            Some(j) => 0 <= j < s.len() && s[j] == id,
            None => forall|a: int| 0 <= a < s.len() ==> s[a] != id,
        },
    decreases s.len(),
{
    if s.len() > 0 && s[0] != id {
        lemma_find_id_index(s.drop_first(), id);
        match spec_find_id(s.drop_first(), id) {
            Some(j) => {
                assert(s.drop_first()[j] == s[j + 1]);
            },
            None => {
                assert(forall|a: int| 1 <= a < s.len() ==> s[a] == s.drop_first()[a - 1]);
            },
        }
    }
}

/// Some entry carries the id `x`.
pub open spec fn has_entry_id(s: Seq<(PageId, BTreeNode)>, x: PageId) -> bool {
    exists|a: int| 0 <= a < s.len() && #[trigger] s[a].0 == x
}

/// An element other than the removed one stays present by its id.
proof fn lemma_remove_keeps_has(s: Seq<(PageId, BTreeNode)>, k: int, x: PageId)
    requires
        0 <= k < s.len(),
        s[k].0 != x,
        has_entry_id(s, x),
    ensures
        has_entry_id(s.remove(k), x),
{
    let a = choose|a: int| 0 <= a < s.len() && #[trigger] s[a].0 == x;
    let t = s.remove(k);
    if a < k {
        assert(t[a].0 == x);
    } else {
        assert(t[a - 1].0 == x);
    }
}

/// Pushing keeps every present id present.
proof fn lemma_push_keeps_has(s: Seq<(PageId, BTreeNode)>, e: (PageId, BTreeNode), x: PageId)
    requires
        has_entry_id(s, x),
    ensures
        has_entry_id(s.push(e), x),
{
    let a = choose|a: int| 0 <= a < s.len() && #[trigger] s[a].0 == x;
    assert(s.push(e)[a].0 == x);
}

/// A present id has a findable slot.
proof fn lemma_id_present_found(s: Seq<(PageId, BTreeNode)>, x: PageId)
    requires
        has_entry_id(s, x),
    ensures
        spec_find_entry(s, x) is Some,
{
    lemma_find_entry_index(s, x);
    if spec_find_entry(s, x) is None {
        let a = choose|a: int| 0 <= a < s.len() && #[trigger] s[a].0 == x;
        assert(s[a].0 != x);
    }
}

proof fn lemma_remove_keeps_unique(s: Seq<(PageId, BTreeNode)>, k: int)
    requires
        unique_ids(s),
        0 <= k < s.len(),
    ensures
        unique_ids(s.remove(k)),
        forall|a: int| 0 <= a < s.remove(k).len() ==> s.remove(k)[a].0 != s[k].0,
{
    let t = s.remove(k);
    assert forall|a: int, b: int| 0 <= a < b < t.len() implies t[a].0 != t[b].0 by {
        let a0 = if a < k { a } else { a + 1 };
        let b0 = if b < k { b } else { b + 1 };
        assert(t[a] == s[a0] && t[b] == s[b0]);
    }
    assert forall|a: int| 0 <= a < t.len() implies t[a].0 != s[k].0 by {
        let a0 = if a < k { a } else { a + 1 };
        assert(t[a] == s[a0]);
    }
}

/// An LRU page cache.
pub struct PageCache {
    pub capacity: usize,
    pub entries: Vec<(PageId, BTreeNode)>,
    pub lru: Vec<PageId>,
    pub stats: EngineStats,
    pub page_size: usize,
    pub dirty_pages: Vec<PageId>,
}

impl PageCache {
    /// Entry ids are unique, so removing the one entry for an id removes
    /// it entirely; the dirty list never repeats an id either.  The LRU
    /// order carries no such guarantee: re-inserting a cached id leaves
    /// its older slots in place.
    pub open spec fn wf(&self) -> bool {
        unique_ids(self.entries@) && unique_pids(self.dirty_pages@)
    }

    /// An empty cache around the given counters.
    pub fn new(capacity: usize, page_size: usize, stats: EngineStats) -> (r: Self)
        ensures
            r.wf(),
            r.capacity == capacity,
            r.page_size == page_size,
            r.entries@.len() == 0,
            r.lru@.len() == 0,
            r.dirty_pages@.len() == 0,
            r.stats == stats,
    {
        PageCache {
            capacity,
            entries: Vec::new(),
            lru: Vec::new(),
            stats,
            page_size,
            dirty_pages: Vec::new(),
        }
    }

    /// Find the entry index for `id`.
    fn find_entry(&self, id: PageId) -> (r: Option<usize>)
        ensures
            match r {
                Some(i) => spec_find_entry(self.entries@, id) == Some(i as int) && i
                    < self.entries@.len(),
                None => spec_find_entry(self.entries@, id) == None::<int>,
            },
    {
        let n = self.entries.len();
        let mut i: usize = 0;
        while i < n
            invariant
                0 <= i <= n,
                n == self.entries@.len(),
                forall|j: int| 0 <= j < i ==> self.entries@[j].0 != id,
            decreases n - i,
        {
            if self.entries[i].0 == id {
                proof {
                    lemma_find_entry(self.entries@, id, i as int);
                }
                return Some(i);
            }
            i = i + 1;
        }
        proof {
            lemma_find_entry(self.entries@, id, n as int);
        }
        None
    }

    /// Find the first LRU slot holding `id`.
    fn find_lru(&self, id: PageId) -> (r: Option<usize>)
        ensures
            match r {
                Some(i) => spec_find_id(self.lru@, id) == Some(i as int) && i < self.lru@.len(),
                None => spec_find_id(self.lru@, id) == None::<int>,
            },
    {
        let n = self.lru.len();
        let mut i: usize = 0;
        while i < n
            invariant
                0 <= i <= n,
                n == self.lru@.len(),
                forall|j: int| 0 <= j < i ==> self.lru@[j] != id,
            decreases n - i,
        {
            if self.lru[i] == id {
                proof {
                    lemma_find_id(self.lru@, id, i as int);
                }
                return Some(i);
            }
            i = i + 1;
        }
        proof {
            lemma_find_id(self.lru@, id, n as int);
        }
        None
    }

    /// Look a page up.  A hit hands back a copy of the cached node, moves
    /// the id to the back of the LRU order, and counts one hit; a miss
    /// counts one miss and changes nothing else.
    pub fn get(&mut self, page_id: PageId) -> (r: Option<BTreeNode>)
        requires
            old(self).wf(),
            old(self).stats.cache_hits < usize::MAX,
            old(self).stats.cache_misses < usize::MAX,
        ensures
            final(self).wf(),
            final(self).entries@ == old(self).entries@,
            final(self).dirty_pages@ == old(self).dirty_pages@,
            final(self).capacity == old(self).capacity,
            final(self).page_size == old(self).page_size,
            match spec_find_entry(old(self).entries@, page_id) {
                Some(j) => {
                    &&& r matches Some(n)
                    &&& n.page_id == old(self).entries@[j].1.page_id
                    &&& n.header == old(self).entries@[j].1.header
                    &&& n.cells@ == old(self).entries@[j].1.cells@
                    &&& n.data@ == old(self).entries@[j].1.data@
                    &&& final(self).stats.cache_hits == old(self).stats.cache_hits + 1
                    &&& final(self).stats.cache_misses == old(self).stats.cache_misses
                    &&& final(self).lru@ == spec_lru_touch(old(self).lru@, page_id)
                },
                None => {
                    &&& r is None
                    &&& final(self).stats.cache_hits == old(self).stats.cache_hits
                    &&& final(self).stats.cache_misses == old(self).stats.cache_misses + 1
                    &&& final(self).lru@ == old(self).lru@
                },
            },
    {
        match self.find_entry(page_id) {
            Some(j) => {
                match self.find_lru(page_id) {
                    Some(pos) => {
                        self.lru.remove(pos);
                    },
                    None => {},
                }
                self.lru.push(page_id);
                self.stats.cache_hits = self.stats.cache_hits + 1;
                let node = self.entries[j].1.clone();
                Some(node)
            },
            None => {
                self.stats.cache_misses = self.stats.cache_misses + 1;
                None
            },
        }
    }

    /// Insert or refresh a page.  When the cache is full and the id is new,
    /// the least recently used page is evicted first.  The id always ends
    /// at the back of the LRU order, and a dirty insert remembers the id
    /// for the next flush.
    #[verifier::rlimit(60)]
    pub fn put(&mut self, page_id: PageId, node: BTreeNode, is_dirty: bool) -> (r: Result<
        (),
        BTreeError,
    >)
        requires
            old(self).wf(),
        ensures
            final(self).wf(),
            r is Ok,
            final(self).capacity == old(self).capacity,
            final(self).page_size == old(self).page_size,
            final(self).stats == old(self).stats,
            ({
                &&& spec_find_entry(final(self).entries@, page_id) matches Some(j)
                &&& final(self).entries@[j].1 == node
            }),
            final(self).lru@.len() > 0 && final(self).lru@.last() == page_id,
            is_dirty ==> spec_find_id(final(self).dirty_pages@, page_id) is Some,
            final(self).entries@.len() <= old(self).entries@.len() + 1,
            final(self).entries@.len() == ({
                let evicting = spec_find_entry(old(self).entries@, page_id) is None && old(
                    self,
                ).entries@.len() >= old(self).capacity && old(self).lru@.len() > 0;
                if spec_find_entry(old(self).entries@, page_id) is Some {
                    old(self).entries@.len() as int
                } else if evicting && spec_find_entry(old(self).entries@, old(self).lru@[0])
                    is Some {
                    old(self).entries@.len() as int
                } else {
                    old(self).entries@.len() as int + 1
                }
            }),
            ({
                // nothing but the eviction victim leaves the cache
                let evicting = spec_find_entry(old(self).entries@, page_id) is None && old(
                    self,
                ).entries@.len() >= old(self).capacity && old(self).lru@.len() > 0;
                forall|j: int|
                    0 <= j < old(self).entries@.len() && old(self).entries@[j].0 != page_id && !(
                    evicting && old(self).entries@[j].0 == old(self).lru@[0]) ==> spec_find_entry(
                        final(self).entries@,
                        #[trigger] old(self).entries@[j].0,
                    ) is Some
            }),
    {
        let ghost pre0 = self.entries@;
        let ghost lru0 = self.lru@;
        let ghost mut evict_k: Option<int> = None;
        let present = self.find_entry(page_id);
        if present.is_none() && self.entries.len() >= self.capacity {
            if self.lru.len() > 0 {
                let evicted = self.lru.remove(0);
                match self.find_entry(evicted) {
                    Some(k) => {
                        proof {
                            lemma_find_entry_index(pre0, evicted);
                        }
                        self.entries.remove(k);
                        proof {
                            lemma_remove_keeps_unique(pre0, k as int);
                            evict_k = Some(k as int);
                        }
                    },
                    None => {},
                }
                let ghost dirty_pre = self.dirty_pages@;
                match self.find_lru_of_dirty(evicted) {
                    Some(d) => {
                        proof {
                            lemma_pids_remove_keeps_unique(dirty_pre, d as int);
                        }
                        self.dirty_pages.remove(d);
                    },
                    None => {},
                }
            }
        }
        let ghost pre2 = self.entries@;
        proof {
            // what the eviction stage did, index by index
            match evict_k {
                Some(k) => {
                    assert(pre2 == pre0.remove(k));
                    assert(0 <= k < pre0.len() && pre0[k].0 == lru0[0]);
                },
                None => {
                    assert(pre2 == pre0);
                },
            }
            // an id absent beforehand is still absent after the eviction
            if spec_find_entry(pre0, page_id) is None {
                lemma_find_entry_index(pre0, page_id);
                assert forall|a: int| 0 <= a < pre2.len() implies pre2[a].0 != page_id by {
                    match evict_k {
                        Some(k) => {
                            let a0 = if a < k { a } else { a + 1 };
                            assert(pre2[a] == pre0[a0]);
                        },
                        None => {},
                    }
                }
                lemma_find_entry(pre2, page_id, pre2.len() as int);
            }
        }
        let ghost mut mid_k: Option<int> = None;
        match self.find_entry(page_id) {
            Some(j) => {
                proof {
                    lemma_find_entry_index(pre2, page_id);
                }
                self.entries.remove(j);
                proof {
                    lemma_remove_keeps_unique(pre2, j as int);
                    mid_k = Some(j as int);
                }
            },
            None => {
                proof {
                    lemma_find_entry_index(pre2, page_id);
                }
            },
        }
        let ghost pre3 = self.entries@;
        proof {
            assert(forall|a: int| 0 <= a < pre3.len() ==> pre3[a].0 != page_id);
            match mid_k {
                Some(j) => {
                    assert(pre3 == pre2.remove(j));
                    assert(0 <= j < pre2.len() && pre2[j].0 == page_id);
                },
                None => {
                    assert(pre3 == pre2);
                },
            }
        }
        self.entries.push((page_id, node));
        proof {
            let s = self.entries@;
            assert(forall|a: int| 0 <= a < s.len() - 1 ==> s[a].0 != page_id);
            lemma_find_entry(s, page_id, s.len() - 1);
            assert(s[s.len() - 1].1 == node);
            let evicting = spec_find_entry(pre0, page_id) is None && pre0.len() >= self.capacity
                && lru0.len() > 0;
            assert forall|j: int|
                0 <= j < pre0.len() && pre0[j].0 != page_id && !(evicting && pre0[j].0 == lru0[0])
                implies spec_find_entry(s, #[trigger] pre0[j].0) is Some by {
                let x = pre0[j].0;
                assert(has_entry_id(pre0, x));
                match evict_k {
                    Some(k) => {
                        lemma_remove_keeps_has(pre0, k, x);
                    },
                    None => {},
                }
                assert(has_entry_id(pre2, x));
                match mid_k {
                    Some(m) => {
                        lemma_remove_keeps_has(pre2, m, x);
                    },
                    None => {},
                }
                assert(has_entry_id(pre3, x));
                lemma_push_keeps_has(pre3, (page_id, node), x);
                lemma_id_present_found(s, x);
            }
        }
        self.lru.push(page_id);
        if is_dirty {
            let ghost pred = self.dirty_pages@;
            match self.find_lru_of_dirty(page_id) {
                Some(_) => {},
                None => {
                    proof {
                        lemma_find_id_index(pred, page_id);
                    }
                    self.dirty_pages.push(page_id);
                    proof {
                        let s = self.dirty_pages@;
                        assert(forall|a: int| 0 <= a < s.len() - 1 ==> s[a] != page_id);
                        lemma_find_id(s, page_id, s.len() - 1);
                        assert forall|a: int, b: int| 0 <= a < b < s.len() implies s[a]
                            != s[b] by {
                            if b == s.len() - 1 {
                                assert(s[a] == pred[a]);
                            }
                        }
                    }
                },
            }
        }
        Ok(())
    }

    /// Find the first dirty-list slot holding `id`.
    fn find_lru_of_dirty(&self, id: PageId) -> (r: Option<usize>)
        ensures
            match r {
                Some(i) => spec_find_id(self.dirty_pages@, id) == Some(i as int) && i
                    < self.dirty_pages@.len(),
                None => spec_find_id(self.dirty_pages@, id) == None::<int>,
            },
    {
        let n = self.dirty_pages.len();
        let mut i: usize = 0;
        while i < n
            invariant
                0 <= i <= n,
                n == self.dirty_pages@.len(),
                forall|j: int| 0 <= j < i ==> self.dirty_pages@[j] != id,
            decreases n - i,
        {
            if self.dirty_pages[i] == id {
                proof {
                    lemma_find_id(self.dirty_pages@, id, i as int);
                }
                return Some(i);
            }
            i = i + 1;
        }
        proof {
            lemma_find_id(self.dirty_pages@, id, n as int);
        }
        None
    }

    /// Mark a cached page dirty; fails, with the page's id, exactly when
    /// the page is not cached.
    pub fn mark_dirty(&mut self, page_id: PageId) -> (r: Result<(), BTreeError>)
        requires
            old(self).wf(),
        ensures
            final(self).wf(),
            final(self).entries@ == old(self).entries@,
            final(self).lru@ == old(self).lru@,
            final(self).stats == old(self).stats,
            final(self).capacity == old(self).capacity,
            final(self).page_size == old(self).page_size,
            match spec_find_entry(old(self).entries@, page_id) {
                Some(_) => r is Ok && spec_find_id(final(self).dirty_pages@, page_id) is Some,
                None => r == Err::<(), BTreeError>(BTreeError::PageNotFound(page_id.0))
                    && final(self).dirty_pages@ == old(self).dirty_pages@,
            },
    {
        match self.find_entry(page_id) {
            Some(_) => {
                match self.find_lru_of_dirty(page_id) {
                    Some(_) => {},
                    None => {
                        proof {
                            lemma_find_id_index(self.dirty_pages@, page_id);
                        }
                        self.dirty_pages.push(page_id);
                        proof {
                            let s = self.dirty_pages@;
                            assert(forall|j: int| 0 <= j < s.len() - 1 ==> s[j] != page_id);
                            lemma_find_id(s, page_id, s.len() - 1);
                        }
                    },
                }
                Ok(())
            },
            None => Err(BTreeError::PageNotFound(page_id.0)),
        }
    }

    /// Forget everything written but not flushed.
    pub fn flush_all(&mut self) -> (r: Result<(), BTreeError>)
        requires
            old(self).wf(),
        ensures
            final(self).wf(),
            r is Ok,
            final(self).dirty_pages@.len() == 0,
            final(self).entries@ == old(self).entries@,
            final(self).lru@ == old(self).lru@,
            final(self).stats == old(self).stats,
            final(self).capacity == old(self).capacity,
            final(self).page_size == old(self).page_size,
    {
        self.dirty_pages = Vec::new();
        Ok(())
    }

    /// Drop a page from the cache, the dirty list, and its first LRU slot.
    /// Every other entry stays; later LRU slots of a re-inserted id stay
    /// too, as the order only ever loses its first occurrence.
    pub fn invalidate(&mut self, page_id: PageId) -> (r: Result<(), BTreeError>)
        requires
            old(self).wf(),
        ensures
            final(self).wf(),
            r is Ok,
            spec_find_entry(final(self).entries@, page_id) is None,
            spec_find_id(final(self).dirty_pages@, page_id) is None,
            final(self).entries@.len() == old(self).entries@.len() - (
            if spec_find_entry(old(self).entries@, page_id) is Some {
                1int
            } else {
                0int
            }),
            forall|j: int|
                0 <= j < old(self).entries@.len() && old(self).entries@[j].0 != page_id
                    ==> spec_find_entry(final(self).entries@, #[trigger] old(self).entries@[j].0)
                    is Some,
            final(self).dirty_pages@ == (match spec_find_id(old(self).dirty_pages@, page_id) {
                Some(d) => old(self).dirty_pages@.remove(d),
                None => old(self).dirty_pages@,
            }),
            final(self).lru@ == (match spec_find_id(old(self).lru@, page_id) {
                Some(p) => old(self).lru@.remove(p),
                None => old(self).lru@,
            }),
            final(self).stats == old(self).stats,
            final(self).capacity == old(self).capacity,
            final(self).page_size == old(self).page_size,
    {
        let ghost pre = self.entries@;
        match self.find_entry(page_id) {
            Some(j) => {
                proof {
                    lemma_find_entry_index(pre, page_id);
                }
                self.entries.remove(j);
                proof {
                    lemma_remove_keeps_unique(pre, j as int);
                    lemma_find_entry(self.entries@, page_id, self.entries@.len() as int);
                    assert forall|j2: int|
                        0 <= j2 < pre.len() && pre[j2].0 != page_id implies spec_find_entry(
                            self.entries@,
                            #[trigger] pre[j2].0,
                        ) is Some by {
                        assert(pre[j2].0 == pre[j2].0);
                        lemma_remove_keeps_has(pre, j as int, pre[j2].0);
                        lemma_id_present_found(self.entries@, pre[j2].0);
                    }
                }
            },
            None => {
                proof {
                    lemma_find_entry_index(pre, page_id);
                    lemma_find_entry(self.entries@, page_id, self.entries@.len() as int);
                    assert forall|j2: int|
                        0 <= j2 < pre.len() && pre[j2].0 != page_id implies spec_find_entry(
                            self.entries@,
                            #[trigger] pre[j2].0,
                        ) is Some by {
                        assert(pre[j2].0 == pre[j2].0);
                        lemma_id_present_found(self.entries@, pre[j2].0);
                    }
                }
            },
        }
        let ghost dirty_pre = self.dirty_pages@;
        match self.find_lru_of_dirty(page_id) {
            Some(d) => {
                proof {
                    lemma_find_id_index(dirty_pre, page_id);
                    lemma_pids_remove_keeps_unique(dirty_pre, d as int);
                }
                self.dirty_pages.remove(d);
                proof {
                    lemma_find_id(self.dirty_pages@, page_id, self.dirty_pages@.len() as int);
                }
            },
            None => {
                proof {
                    lemma_find_id_index(dirty_pre, page_id);
                    lemma_find_id(self.dirty_pages@, page_id, self.dirty_pages@.len() as int);
                }
            },
        }
        match self.find_lru(page_id) {
            Some(pos) => {
                self.lru.remove(pos);
            },
            None => {},
        }
        Ok(())
    }

    /// One line of cache figures: fill, hit rate in hundredths of a
    /// percent, and dirty count.
    pub fn stats(&self) -> (r: String)
        requires
            self.stats.cache_hits + self.stats.cache_misses < usize::MAX,
            self.stats.cache_hits < 0x1000_0000_0000,
        ensures
            r@ == spec_cache_stats_line(
                self.entries@.len() as int,
                self.capacity as int,
                spec_hit_rate_centi(self.stats.cache_hits as int, self.stats.cache_misses as int),
                self.dirty_pages@.len() as int,
            ),
    {
        let total = self.stats.cache_hits + self.stats.cache_misses;
        let centi: u64 = if total == 0 {
            0
        } else {
            (self.stats.cache_hits as u64) * 10000 / (total as u64)
        };
        proof {
            assert(centi <= 10000) by (nonlinear_arith)
                requires
                    total > 0 ==> centi as int == (self.stats.cache_hits as int) * 10000 / (
                    total as int),
                    total == 0 ==> centi == 0,
                    self.stats.cache_hits <= total,
                    total < usize::MAX,
            ;
        }
        let mut out = String::from_str("Cache: ");
        out.append(usize_to_dec(self.entries.len()).as_str());
        out.append("/");
        out.append(usize_to_dec(self.capacity).as_str());
        out.append(" pages, ");
        out.append(u64_to_dec(centi / 100).as_str());
        out.append(".");
        out.append(two_digits((centi % 100) as u64).as_str());
        out.append("% hit rate, ");
        out.append(usize_to_dec(self.dirty_pages.len()).as_str());
        out.append(" dirty pages");
        proof {
            assert(r_matches_stats_line(
                out@,
                self.entries@.len() as int,
                self.capacity as int,
                centi as int,
                self.dirty_pages@.len() as int,
            ));
        }
        out
    }
}

/// Hits per ten-thousand lookups, zero when nothing was looked up.
pub open spec fn spec_hit_rate_centi(hits: int, misses: int) -> int {
    if hits + misses == 0 {
        0
    } else {
        hits * 10000 / (hits + misses)
    }
}

/// The exact characters [`PageCache::stats`] reports.
pub open spec fn spec_cache_stats_line(len: int, cap: int, centi: int, dirty: int) -> Seq<char> {
    "Cache: "@ + dec_chars(len) + "/"@ + dec_chars(cap) + " pages, "@ + dec_chars(centi / 100)
        + "."@ + seq![digit_char(centi % 100 / 10), digit_char(centi % 100 % 10)] + "% hit rate, "@
        + dec_chars(dirty) + " dirty pages"@
}

spec fn r_matches_stats_line(r: Seq<char>, len: int, cap: int, centi: int, dirty: int) -> bool {
    r =~= spec_cache_stats_line(len, cap, centi, dirty)
}

} // verus!
