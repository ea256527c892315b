//! B-tree structure bookkeeping: node kinds, tree-wide state, and errors.

use vstd::prelude::*;

verus! {

/// Largest payload a leaf keeps in line.
pub const MAX_LEAF_PAYLOAD: usize = 2000;

/// Bytes of per-node header the fan-out accounting charges.
pub const BTREE_HEADER_SIZE: usize = 12;

/// Fewest keys an internal page may keep.
pub const MIN_KEYS_PER_INTERNAL_PAGE: usize = 2;

/// The role a b-tree node plays.
#[derive(Debug, Clone, Copy, PartialEq, Eq, Structural)]
pub enum BTreeNodeType {
    Internal,
    Leaf,
    Overflow,
    FreeList,
}

/// A snapshot of a tree's shape.
#[derive(Debug)]
pub struct BTreeState {
    pub node_count: usize,
    pub leaf_count: usize,
    pub internal_count: usize,
    pub overflow_count: usize,
    pub free_pages: usize,
    pub depth: usize,
    pub root_page: usize,
}

/// Failures the b-tree layer reports.
#[derive(Debug, Clone, PartialEq)]
pub enum BTreeError {
    InvalidNodeType,
    PageNotFound(usize),
    KeyNotFound(Vec<u8>),
    DuplicateKey(Vec<u8>),
    InvalidFormat(String),
    IOError(String),
}

/// A b-tree: where its root lives and what is known of its shape.
pub struct BTree {
    pub root_page_id: usize,
    pub page_size: usize,
    pub depth: usize,
    pub key_count: usize,
    pub is_unique: bool,
}

impl BTree {
    /// A one-level tree rooted at the given page.
    pub fn new(root_page_id: usize, page_size: usize) -> (r: Self)
        ensures
            r.root_page_id == root_page_id,
            r.page_size == page_size,
            r.depth == 1,
            r.key_count == 0,
            r.is_unique,
    {
        BTree { root_page_id, page_size, depth: 1, key_count: 0, is_unique: true }
    }

    /// Report the tree's shape; counts not yet walked are zero.
    pub fn get_state(&self) -> (r: BTreeState)
        ensures
            r.node_count == 0,
            r.leaf_count == 0,
            r.internal_count == 0,
            r.overflow_count == 0,
            r.free_pages == 0,
            r.depth == self.depth,
            r.root_page == self.root_page_id,
    {
        BTreeState {
            node_count: 0,
            leaf_count: 0,
            internal_count: 0,
            overflow_count: 0,
            free_pages: 0,
            depth: self.depth,
            root_page: self.root_page_id,
        }
    }
}

} // verus!
