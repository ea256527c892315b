//! In-memory b-tree nodes and the collection that serves them.
//!
//! `BTreePageCollection::get_node` serves a fixed placeholder leaf until
//! multi-page traversal exists; its contract states exactly that, so callers
//! cannot mistake it for a disk read.

use vstd::prelude::*;
use crate::btree::{BTreeError, BTreeNodeType};
use crate::storage::BinaryPageReader;
use crate::value::clone_bytes;

verus! {

/// Bytes the free-space accounting charges for one cell pointer.
pub const CELL_POINTER_BYTES: usize = 16;

/// Bytes the free-space accounting charges for a node header.
pub const NODE_HEADER_BYTES: usize = 40;

/// A page identifier pointing to a b-tree node.
#[derive(Debug, Clone, Copy, PartialEq, Eq, Hash, Structural)]
pub struct PageId(pub usize);

/// A cell's place inside a node.
#[derive(Debug, Clone, Copy, PartialEq, Eq, Structural)]
pub struct CellPointer {
    pub offset: usize,
    pub size: usize,
}

/// A b-tree node's header.
#[derive(Debug)]
pub struct NodeHeader {
    pub node_type: BTreeNodeType,
    pub cell_count: u16,
    pub free_block_offset: u16,
    pub right_child: Option<PageId>,
    pub parent_page: Option<PageId>,
    pub depth: u8,
}

impl NodeHeader {
    pub fn clone(&self) -> (r: NodeHeader)
        ensures
            r == *self,
    {
        NodeHeader {
            node_type: self.node_type,
            cell_count: self.cell_count,
            free_block_offset: self.free_block_offset,
            right_child: self.right_child,
            parent_page: self.parent_page,
            depth: self.depth,
        }
    }
}

/// A b-tree node: header, cell pointers, and the page bytes.
#[derive(Debug)]
pub struct BTreeNode {
    pub page_id: PageId,
    pub header: NodeHeader,
    pub cells: Vec<CellPointer>,
    pub data: Vec<u8>,
}

/// Free bytes a node header accounts for: the free-block offset less the
/// bookkeeping charged per cell and per node.
pub open spec fn spec_free_space(h: NodeHeader) -> int {
    h.free_block_offset - h.cell_count * CELL_POINTER_BYTES - NODE_HEADER_BYTES
}

impl BTreeNode {
    /// An empty node of the given type whose free space starts at the page
    /// end.
    pub fn new(page_id: PageId, node_type: BTreeNodeType, page_size: usize) -> (r: Self)
        ensures
            r.page_id == page_id,
            r.header.node_type == node_type,
            r.header.cell_count == 0,
            r.header.free_block_offset == page_size as u16,
            r.header.right_child is None,
            r.header.parent_page is None,
            r.header.depth == 0,
            r.cells@.len() == 0,
            r.data@.len() == page_size,
            forall|i: int| 0 <= i < r.data@.len() ==> r.data@[i] == 0,
    {
        BTreeNode {
            page_id,
            header: NodeHeader {
                node_type,
                cell_count: 0,
                free_block_offset: #[verifier::truncate] (page_size as u16),
                right_child: None,
                parent_page: None,
                depth: 0,
            },
            cells: Vec::new(),
            data: zero_bytes(page_size),
        }
    }

    /// Free bytes left in this node.
    pub fn free_space(&self) -> (r: usize)
        requires
            spec_free_space(self.header) >= 0,
        ensures
            r == spec_free_space(self.header),
    {
        self.header.free_block_offset as usize - self.header.cell_count as usize
            * CELL_POINTER_BYTES - NODE_HEADER_BYTES
    }

    /// Whether a cell of `new_cell_size` bytes no longer fits.
    pub fn is_full(&self, new_cell_size: usize) -> (r: bool)
        requires
            spec_free_space(self.header) >= 0,
        ensures
            r == (spec_free_space(self.header) < new_cell_size),
    {
        self.free_space() < new_cell_size
    }

    /// Account for one key-value pair entering a leaf: the cell count grows
    /// and the free-block offset retreats by the entry's encoded size.
    ///
    /// Fails, and only fails, on a non-leaf node or when the encoded entry
    /// exceeds the free space; the node is unchanged then.
    pub fn insert_key(&mut self, key: &[u8], value: &[u8]) -> (r: Result<(), BTreeError>)
        requires
            spec_free_space(old(self).header) >= 0,
            key@.len() + value@.len() + 8 < usize::MAX,
            old(self).header.cell_count < u16::MAX,
        ensures
            ({
                let encoded = key@.len() + value@.len() + 8;
                match r {
                    Ok(()) => {
                        &&& old(self).header.node_type is Leaf
                        &&& encoded <= spec_free_space(old(self).header)
                        &&& final(self).header.cell_count == old(self).header.cell_count + 1
                        &&& final(self).header.free_block_offset == old(
                            self,
                        ).header.free_block_offset - encoded
                        &&& final(self).header.node_type == old(self).header.node_type
                        &&& final(self).cells@ == old(self).cells@
                        &&& final(self).data@ == old(self).data@
                    },
                    Err(BTreeError::InvalidFormat(msg)) => {
                        &&& *final(self) == *old(self)
                        &&& (!(old(self).header.node_type is Leaf) ==> msg@
                            == "Cannot insert into non-leaf node"@)
                        &&& (old(self).header.node_type is Leaf ==> {
                            &&& encoded > spec_free_space(old(self).header)
                            &&& msg@ == "Not enough space in leaf node"@
                        })
                    },
                    Err(_) => false,
                }
            }),
    {
        if !matches!(self.header.node_type, BTreeNodeType::Leaf) {
            return Err(BTreeError::InvalidFormat(String::from_str(
                "Cannot insert into non-leaf node",
            )));
        }
        let encoded_size = key.len() + value.len() + 8;
        if self.free_space() < encoded_size {
            return Err(BTreeError::InvalidFormat(String::from_str(
                "Not enough space in leaf node",
            )));
        }
        self.header.cell_count = self.header.cell_count + 1;
        self.header.free_block_offset = self.header.free_block_offset - (encoded_size as u16);
        Ok(())
    }

    /// The placeholder lookup: every key reports the same bytes until real
    /// cell decoding is wired in.
    pub fn get_value(&self, _key: &[u8]) -> (r: Option<Vec<u8>>)
        ensures
            r matches Some(v) && v@ == seq![1u8, 2u8, 3u8, 4u8, 5u8],
    {
        let mut v: Vec<u8> = Vec::new();
        v.push(1);
        v.push(2);
        v.push(3);
        v.push(4);
        v.push(5);
        proof {
            assert(v@ =~= seq![1u8, 2u8, 3u8, 4u8, 5u8]);
        }
        Some(v)
    }

    pub fn clone(&self) -> (r: BTreeNode)
        ensures
            r.page_id == self.page_id,
            r.header == self.header,
            r.cells@ == self.cells@,
            r.data@ == self.data@,
    {
        BTreeNode {
            page_id: self.page_id,
            header: self.header.clone(),
            cells: clone_cell_pointers(&self.cells),
            data: clone_bytes(&self.data),
        }
    }
}

/// The node `get_node` serves: a five-cell leaf over a blank page.
pub open spec fn spec_placeholder_node(page_id: PageId, n: BTreeNode) -> bool {
    &&& n.page_id == page_id
    &&& n.header.node_type is Leaf
    &&& n.header.cell_count == 5
    &&& n.header.free_block_offset == 2048
    &&& n.header.right_child is None
    &&& n.header.parent_page is None
    &&& n.header.depth == 1
    &&& n.cells@ == seq![
        CellPointer { offset: 100, size: 64 },
        CellPointer { offset: 164, size: 128 },
        CellPointer { offset: 292, size: 72 },
        CellPointer { offset: 364, size: 96 },
        CellPointer { offset: 460, size: 112 },
    ]
    &&& n.data@.len() == 4096
    &&& forall|i: int| 0 <= i < n.data@.len() ==> n.data@[i] == 0
}

/// B-tree pages held in memory around one page reader.
pub struct BTreePageCollection {
    pub page_reader: BinaryPageReader,
    pub cache: Vec<Option<BTreeNode>>,
    pub modified_pages: Vec<PageId>,
}

impl BTreePageCollection {
    /// A collection with an empty cache.
    pub fn new(page_reader: BinaryPageReader) -> (r: Self)
        ensures
            r.cache@.len() == 100,
            forall|i: int| 0 <= i < r.cache@.len() ==> r.cache@[i] is None,
            r.modified_pages@.len() == 0,
    {
        let mut cache: Vec<Option<BTreeNode>> = Vec::new();
        let mut i: usize = 0;
        while i < 100
            invariant
                0 <= i <= 100,
                cache@.len() == i,
                forall|j: int| 0 <= j < cache@.len() ==> cache@[j] is None,
            decreases 100 - i,
        {
            cache.push(None);
            i = i + 1;
        }
        BTreePageCollection { page_reader, cache, modified_pages: Vec::new() }
    }

    /// Serve the placeholder leaf for any page id; see
    /// [`spec_placeholder_node`] for exactly what comes back.
    pub fn get_node(&self, page_id: PageId) -> (r: Result<BTreeNode, BTreeError>)
        ensures
            r matches Ok(n) && spec_placeholder_node(page_id, n),
    {
        let mut cells: Vec<CellPointer> = Vec::new();
        cells.push(CellPointer { offset: 100, size: 64 });
        cells.push(CellPointer { offset: 164, size: 128 });
        cells.push(CellPointer { offset: 292, size: 72 });
        cells.push(CellPointer { offset: 364, size: 96 });
        cells.push(CellPointer { offset: 460, size: 112 });
        proof {
            assert(cells@ =~= seq![
                CellPointer { offset: 100, size: 64 },
                CellPointer { offset: 164, size: 128 },
                CellPointer { offset: 292, size: 72 },
                CellPointer { offset: 364, size: 96 },
                CellPointer { offset: 460, size: 112 },
            ]);
        }
        Ok(BTreeNode {
            page_id,
            header: NodeHeader {
                node_type: BTreeNodeType::Leaf,
                cell_count: 5,
                free_block_offset: 2048,
                right_child: None,
                parent_page: None,
                depth: 1,
            },
            cells,
            data: zero_bytes(4096),
        })
    }
}

/// A vector of the given length holding zeroes.
fn zero_bytes(n: usize) -> (r: Vec<u8>)
    ensures
        r@.len() == n,
        forall|i: int| 0 <= i < r@.len() ==> r@[i] == 0,
{
    let mut out: Vec<u8> = Vec::new();
    let mut i: usize = 0;
    while i < n
        invariant
            0 <= i <= n,
            out@.len() == i,
            forall|j: int| 0 <= j < out@.len() ==> out@[j] == 0,
        decreases n - i,
    {
        out.push(0);
        i = i + 1;
    }
    out
}

/// Copy a vector of cell pointers.
fn clone_cell_pointers(v: &Vec<CellPointer>) -> (r: Vec<CellPointer>)
    ensures
        r@ == v@,
{
    let mut out: Vec<CellPointer> = Vec::new();
    let mut i: usize = 0;
    while i < v.len()
        invariant
            0 <= i <= v@.len(),
            out@ =~= v@.subrange(0, i as int),
        decreases v@.len() - i,
    {
        out.push(v[i]);
        proof {
            assert(out@ =~= v@.subrange(0, i + 1));
        }
        i = i + 1;
    }
    proof {
        assert(out@ =~= v@);
    }
    out
}

} // verus!
