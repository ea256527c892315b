//! Walking b-trees: traversal bookkeeping, an in-order iterator, and key
//! comparison.
//!
//! Until multi-page descent exists, traversal rests on the placeholder
//! nodes [`BTreePageCollection::get_node`] serves, and the contracts here
//! say exactly what that yields.

use vstd::prelude::*;
use core::cmp::Ordering;
use crate::btree::{BTreeError, BTreeNodeType, BTREE_HEADER_SIZE};
use crate::btree_node::{spec_placeholder_node, BTreeNode, BTreePageCollection, PageId};

verus! {

/// Where a walk of the tree stands.
pub struct TraversalContext {
    pub current_page: PageId,
    pub depth: usize,
    pub path: Vec<PageId>,
    pub comparisons: usize,
    pub nodes_visited: usize,
}

impl TraversalContext {
    /// A walk standing at the root.
    pub fn new(root_page: PageId) -> (r: Self)
        ensures
            r.current_page == root_page,
            r.depth == 0,
            r.path@ == seq![root_page],
            r.comparisons == 0,
            r.nodes_visited == 1,
    {
        let mut path: Vec<PageId> = Vec::new();
        path.push(root_page);
        proof {
            assert(path@ =~= seq![root_page]);
        }
        TraversalContext { current_page: root_page, depth: 0, path, comparisons: 0, nodes_visited: 1 }
    }
}

/// In-order iterator over leaf cells.
pub struct BTreeIterator {
    pub page_collection: BTreePageCollection,
    pub current_leaf: Option<BTreeNode>,
    pub current_cell_index: usize,
    pub traversal: TraversalContext,
}

impl BTreeIterator {
    /// Start at the leftmost leaf reachable from `root_page`; with the
    /// placeholder collection that is the placeholder leaf itself.
    pub fn new(page_collection: BTreePageCollection, root_page: PageId) -> (r: Result<
        Self,
        BTreeError,
    >)
        ensures
            r matches Ok(it) && {
                &&& it.current_leaf matches Some(n) && spec_placeholder_node(root_page, n)
                &&& it.current_cell_index == 0
                &&& it.traversal.current_page == root_page
            },
    {
        let traversal = TraversalContext::new(root_page);
        let current_leaf = Self::find_leftmost_leaf(&page_collection, root_page)?;
        Ok(BTreeIterator {
            page_collection,
            current_leaf: Some(current_leaf),
            current_cell_index: 0,
            traversal,
        })
    }

    /// Follow leftmost children down to a leaf; the placeholder collection
    /// serves a leaf at once.
    fn find_leftmost_leaf(page_collection: &BTreePageCollection, start_page: PageId) -> (r: Result<
        BTreeNode,
        BTreeError,
    >)
        ensures
            r matches Ok(n) && spec_placeholder_node(start_page, n),
    {
        let node = page_collection.get_node(start_page)?;
        Ok(node)
    }

    /// The next key-value pair of the current leaf: a synthesized pair per
    /// cell until cell payloads are decoded, then `None` once the leaf is
    /// exhausted.  The leaf itself is never touched, so a leaf of `n` cells
    /// yields exactly `n` pairs before the iterator goes empty for good.
    pub fn next(&mut self) -> (r: Option<(Vec<u8>, Vec<u8>)>)
        ensures
            final(self).page_collection == old(self).page_collection,
            final(self).traversal == old(self).traversal,
            match old(self).current_leaf {
                Some(leaf) => {
                    if old(self).current_cell_index < leaf.header.cell_count {
                        &&& r matches Some((k, v))
                        &&& k@ == seq![
                            old(self).current_cell_index as u8,
                            0u8,
                            0u8,
                            0u8,
                        ]
                        &&& v@ == seq![42u8, 42u8, 42u8, 42u8]
                        &&& final(self).current_cell_index == old(self).current_cell_index + 1
                        &&& final(self).current_leaf == old(self).current_leaf
                    } else {
                        &&& r is None
                        &&& final(self).current_leaf is None
                        &&& final(self).current_cell_index == old(self).current_cell_index
                    }
                },
                None => {
                    &&& r is None
                    &&& final(self).current_leaf is None
                    &&& final(self).current_cell_index == old(self).current_cell_index
                },
            },
    {
        let take_index = match &self.current_leaf {
            Some(leaf) => {
                if self.current_cell_index < leaf.header.cell_count as usize {
                    Some(self.current_cell_index)
                } else {
                    None
                }
            },
            None => None,
        };
        match take_index {
            Some(idx) => {
                let mut key: Vec<u8> = Vec::new();
                key.push(#[verifier::truncate] (idx as u8));
                key.push(0);
                key.push(0);
                key.push(0);
                let mut value: Vec<u8> = Vec::new();
                value.push(42);
                value.push(42);
                value.push(42);
                value.push(42);
                self.current_cell_index = idx + 1;
                proof {
                    assert(key@ =~= seq![#[verifier::truncate] (idx as u8), 0u8, 0u8, 0u8]);
                    assert(value@ =~= seq![42u8, 42u8, 42u8, 42u8]);
                    assert(idx as u8 == old(self).current_cell_index as u8);
                }
                Some((key, value))
            },
            None => {
                self.current_leaf = None;
                None
            },
        }
    }
}

/// Free-standing traversal helpers.
pub struct BTreeTraversal;

/// Lexicographic byte order, shorter prefix first.
pub open spec fn spec_compare_keys(a: Seq<u8>, b: Seq<u8>) -> Ordering
    decreases a.len(),
{
    if a.len() == 0 && b.len() == 0 {
        Ordering::Equal
    } else if a.len() == 0 {
        Ordering::Less
    } else if b.len() == 0 {
        Ordering::Greater
    } else if a[0] < b[0] {
        Ordering::Less
    } else if a[0] > b[0] {
        Ordering::Greater
    } else {
        spec_compare_keys(a.drop_first(), b.drop_first())
    }
}

impl BTreeTraversal {
    /// Search from `root_page`; over placeholder nodes every search lands
    /// in the placeholder leaf and reports its fixed bytes.
    pub fn search(pages: &BTreePageCollection, root_page: PageId, _key: &[u8]) -> (r: Result<
        Option<Vec<u8>>,
        BTreeError,
    >)
        ensures
            r matches Ok(v) && v matches Some(bytes) && bytes@ == seq![1u8, 2u8, 3u8, 4u8, 5u8],
    {
        let _context = TraversalContext::new(root_page);
        let node = pages.get_node(root_page)?;
        let mut found: Vec<u8> = Vec::new();
        found.push(1);
        found.push(2);
        found.push(3);
        found.push(4);
        found.push(5);
        proof {
            assert(found@ =~= seq![1u8, 2u8, 3u8, 4u8, 5u8]);
        }
        Ok(Some(found))
    }

    /// Keys a page of this node's size can fan out to, by the accounting
    /// sizes: internal pages charge an 8-byte key and an 8-byte child
    /// pointer per entry, leaves a 32-byte pair.
    pub fn calculate_fan_out(node: &BTreeNode) -> (r: usize)
        requires
            node.data@.len() >= BTREE_HEADER_SIZE,
        ensures
            node.header.node_type is Internal ==> r == (node.data@.len() - 12) / 16,
            node.header.node_type is Leaf ==> r == (node.data@.len() - 12) / 32,
            !(node.header.node_type is Internal) && !(node.header.node_type is Leaf) ==> r == 0,
    {
        match node.header.node_type {
            BTreeNodeType::Internal => {
                let usable_space = node.data.len() - BTREE_HEADER_SIZE;
                usable_space / 16
            },
            BTreeNodeType::Leaf => {
                let usable_space = node.data.len() - BTREE_HEADER_SIZE;
                usable_space / 32
            },
            _ => 0,
        }
    }

    /// Compare two keys byte by byte; a key that runs out first sorts
    /// before one it prefixes.
    pub fn compare_keys(a: &[u8], b: &[u8]) -> (r: Ordering)
        ensures
            r == spec_compare_keys(a@, b@),
    {
        let a_len = a.len();
        let b_len = b.len();
        let mut i: usize = 0;
        proof {
            assert(a@.skip(0) =~= a@);
            assert(b@.skip(0) =~= b@);
        }
        while i < a_len && i < b_len
            invariant
                0 <= i,
                i <= a_len,
                i <= b_len,
                a_len == a@.len(),
                b_len == b@.len(),
                forall|j: int| 0 <= j < i ==> a@[j] == b@[j],
                spec_compare_keys(a@, b@) == spec_compare_keys(
                    a@.skip(i as int),
                    b@.skip(i as int),
                ),
            decreases a_len - i,
        {
            let x = a[i];
            let y = b[i];
            proof {
                assert(a@.skip(i as int)[0] == a@[i as int]);
                assert(b@.skip(i as int)[0] == b@[i as int]);
                assert(a@.skip(i as int).drop_first() =~= a@.skip(i + 1));
                assert(b@.skip(i as int).drop_first() =~= b@.skip(i + 1));
            }
            if x < y {
                return Ordering::Less;
            }
            if x > y {
                return Ordering::Greater;
            }
            i = i + 1;
        }
        proof {
            assert(a@.skip(i as int).len() == a@.len() - i);
            assert(b@.skip(i as int).len() == b@.len() - i);
        }
        if a_len == b_len {
            Ordering::Equal
        } else if a_len < b_len {
            Ordering::Less
        } else {
            Ordering::Greater
        }
    }
}

} // verus!
