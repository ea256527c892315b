use whatql::btree::{BTree, BTreeError, BTreeNodeType};
use whatql::btree_cache::PageCache;
use whatql::btree_node::{BTreeNode, BTreePageCollection, CellPointer, PageId};
use whatql::btree_traversal::{BTreeIterator, BTreeTraversal, TraversalContext};
use whatql::engine::EngineStats;
use whatql::storage::{BinaryPageReader, DatabaseInfoExtractor, PageManager, PageType};
use std::cmp::Ordering;

#[test]
fn btree_new_and_state() {
    let tree = BTree::new(7, 4096);
    assert_eq!(tree.root_page_id, 7);
    assert_eq!(tree.page_size, 4096);
    assert_eq!(tree.depth, 1);
    assert_eq!(tree.key_count, 0);
    assert!(tree.is_unique);
    let state = tree.get_state();
    assert_eq!(state.root_page, 7);
    assert_eq!(state.depth, 1);
    assert_eq!(state.node_count, 0);
}

#[test]
fn node_new_and_free_space() {
    let node = BTreeNode::new(PageId(3), BTreeNodeType::Leaf, 4096);
    assert_eq!(node.page_id, PageId(3));
    assert_eq!(node.header.cell_count, 0);
    assert_eq!(node.header.free_block_offset, 4096);
    assert_eq!(node.data.len(), 4096);
    // 4096 minus the 40-byte header charge, no cells yet
    assert_eq!(node.free_space(), 4056);
    assert!(!node.is_full(4056));
    assert!(node.is_full(4057));
}

#[test]
fn node_insert_key_accounting() {
    let mut node = BTreeNode::new(PageId(1), BTreeNodeType::Leaf, 4096);
    node.insert_key(b"key", b"value").unwrap();
    assert_eq!(node.header.cell_count, 1);
    // 3 + 5 + 8 encoded bytes leave the free-block offset
    assert_eq!(node.header.free_block_offset, 4096 - 16);
}

#[test]
fn node_insert_key_rejects_non_leaf() {
    let mut node = BTreeNode::new(PageId(1), BTreeNodeType::Internal, 4096);
    match node.insert_key(b"k", b"v") {
        Err(BTreeError::InvalidFormat(msg)) => {
            assert_eq!(msg, "Cannot insert into non-leaf node");
        },
        other => panic!("unexpected result: {:?}", other),
    }
}

#[test]
fn node_insert_key_rejects_overflow() {
    let mut node = BTreeNode::new(PageId(1), BTreeNodeType::Leaf, 64);
    let big = vec![0u8; 64];
    match node.insert_key(&big, &big) {
        Err(BTreeError::InvalidFormat(msg)) => {
            assert_eq!(msg, "Not enough space in leaf node");
        },
        other => panic!("unexpected result: {:?}", other),
    }
}

#[test]
fn node_lookup_placeholder() {
    let node = BTreeNode::new(PageId(1), BTreeNodeType::Leaf, 4096);
    assert_eq!(node.get_value(b"anything"), Some(vec![1, 2, 3, 4, 5]));
}

#[test]
fn collection_serves_placeholder_leaf() {
    let collection = BTreePageCollection::new(BinaryPageReader::new("db".to_string()));
    let node = collection.get_node(PageId(9)).unwrap();
    assert_eq!(node.page_id, PageId(9));
    assert_eq!(node.header.node_type, BTreeNodeType::Leaf);
    assert_eq!(node.header.cell_count, 5);
    assert_eq!(node.cells[0], CellPointer { offset: 100, size: 64 });
    assert_eq!(node.cells.len(), 5);
    assert_eq!(node.data.len(), 4096);
}

#[test]
fn iterator_walks_the_placeholder_leaf() {
    let collection = BTreePageCollection::new(BinaryPageReader::new("db".to_string()));
    let mut it = BTreeIterator::new(collection, PageId(1)).unwrap();
    let mut seen = 0;
    while let Some((key, value)) = it.next() {
        assert_eq!(key, vec![seen as u8, 0, 0, 0]);
        assert_eq!(value, vec![42, 42, 42, 42]);
        seen += 1;
    }
    assert_eq!(seen, 5);
    assert!(it.next().is_none());
}

#[test]
fn traversal_context_starts_at_root() {
    let ctx = TraversalContext::new(PageId(4));
    assert_eq!(ctx.current_page, PageId(4));
    assert_eq!(ctx.depth, 0);
    assert_eq!(ctx.path, vec![PageId(4)]);
    assert_eq!(ctx.nodes_visited, 1);
}

#[test]
fn search_reports_placeholder_bytes() {
    let collection = BTreePageCollection::new(BinaryPageReader::new("db".to_string()));
    let found = BTreeTraversal::search(&collection, PageId(1), b"key").unwrap();
    assert_eq!(found, Some(vec![1, 2, 3, 4, 5]));
}

#[test]
fn fan_out_formulas() {
    let internal = BTreeNode::new(PageId(1), BTreeNodeType::Internal, 4096);
    assert_eq!(BTreeTraversal::calculate_fan_out(&internal), (4096 - 12) / 16);
    let leaf = BTreeNode::new(PageId(1), BTreeNodeType::Leaf, 4096);
    assert_eq!(BTreeTraversal::calculate_fan_out(&leaf), (4096 - 12) / 32);
    let overflow = BTreeNode::new(PageId(1), BTreeNodeType::Overflow, 4096);
    assert_eq!(BTreeTraversal::calculate_fan_out(&overflow), 0);
}

#[test]
fn key_comparison_is_lexicographic() {
    assert_eq!(BTreeTraversal::compare_keys(b"abc", b"abd"), Ordering::Less);
    assert_eq!(BTreeTraversal::compare_keys(b"abd", b"abc"), Ordering::Greater);
    assert_eq!(BTreeTraversal::compare_keys(b"abc", b"abc"), Ordering::Equal);
    assert_eq!(BTreeTraversal::compare_keys(b"ab", b"abc"), Ordering::Less);
    assert_eq!(BTreeTraversal::compare_keys(b"abc", b"ab"), Ordering::Greater);
    assert_eq!(BTreeTraversal::compare_keys(b"", b""), Ordering::Equal);
}

#[test]
fn cache_hit_and_miss_accounting() {
    let mut cache = PageCache::new(4, 4096, EngineStats::new());
    assert!(cache.get(PageId(1)).is_none());
    assert_eq!(cache.stats.cache_misses, 1);
    let node = BTreeNode::new(PageId(1), BTreeNodeType::Leaf, 64);
    cache.put(PageId(1), node, false).unwrap();
    let got = cache.get(PageId(1)).expect("cached page must hit");
    assert_eq!(got.page_id, PageId(1));
    assert_eq!(cache.stats.cache_hits, 1);
}

#[test]
fn cache_mark_dirty_requires_presence() {
    let mut cache = PageCache::new(4, 4096, EngineStats::new());
    assert_eq!(cache.mark_dirty(PageId(2)), Err(BTreeError::PageNotFound(2)));
    let node = BTreeNode::new(PageId(2), BTreeNodeType::Leaf, 64);
    cache.put(PageId(2), node, false).unwrap();
    assert_eq!(cache.mark_dirty(PageId(2)), Ok(()));
    assert_eq!(cache.dirty_pages, vec![PageId(2)]);
    cache.flush_all().unwrap();
    assert!(cache.dirty_pages.is_empty());
}

#[test]
fn cache_invalidate_removes_page() {
    let mut cache = PageCache::new(4, 4096, EngineStats::new());
    let node = BTreeNode::new(PageId(3), BTreeNodeType::Leaf, 64);
    cache.put(PageId(3), node, true).unwrap();
    cache.invalidate(PageId(3)).unwrap();
    assert!(cache.get(PageId(3)).is_none());
    assert!(cache.dirty_pages.is_empty());
}

#[test]
fn cache_stats_line() {
    let mut cache = PageCache::new(2, 4096, EngineStats::new());
    let node = BTreeNode::new(PageId(1), BTreeNodeType::Leaf, 64);
    cache.put(PageId(1), node, false).unwrap();
    let _ = cache.get(PageId(1));
    assert_eq!(cache.stats(), "Cache: 1/2 pages, 100.00% hit rate, 0 dirty pages");
}

#[test]
fn cache_eviction_keeps_capacity() {
    let mut cache = PageCache::new(1, 64, EngineStats::new());
    cache.put(PageId(1), BTreeNode::new(PageId(1), BTreeNodeType::Leaf, 64), false).unwrap();
    cache.put(PageId(2), BTreeNode::new(PageId(2), BTreeNodeType::Leaf, 64), false).unwrap();
    assert!(cache.get(PageId(2)).is_some());
    assert!(cache.get(PageId(1)).is_none());
}

#[test]
fn page_type_from_byte() {
    assert_eq!(PageType::from(0x02), PageType::InteriorIndex);
    assert_eq!(PageType::from(0x05), PageType::InteriorTable);
    assert_eq!(PageType::from(0x0A), PageType::LeafIndex);
    assert_eq!(PageType::from(0x0D), PageType::LeafTable);
    assert_eq!(PageType::from(0xFF), PageType::Overflow);
    assert_eq!(PageType::from(0xFE), PageType::FreelistTrunk);
    assert_eq!(PageType::from(0xFD), PageType::FreelistLeaf);
    assert_eq!(PageType::from(0x42), PageType::Unknown);
}

#[test]
fn reader_defaults_and_header_load() {
    let mut reader = BinaryPageReader::new("some.db".to_string());
    assert_eq!(reader.get_page_size(), 4096);
    assert_eq!(reader.get_encoding(), 1);
    assert_eq!(reader.get_file_path(), "some.db");
    let mut header = vec![0u8; 100];
    header[0..16].copy_from_slice(b"SQLite format 3\0");
    header[16] = 0x02;
    header[17] = 0x00;
    header[56..60].copy_from_slice(&2u32.to_be_bytes());
    reader.read_header(&header).unwrap();
    assert_eq!(reader.get_page_size(), 512);
    assert_eq!(reader.get_encoding(), 2);
}

#[test]
fn reader_rejects_bad_header() {
    let mut reader = BinaryPageReader::new("some.db".to_string());
    let mut header = vec![0u8; 100];
    header[0] = b'X';
    assert!(reader.read_header(&header).is_err());
    // a failed load leaves the reader untouched
    assert_eq!(reader.get_page_size(), 4096);
    assert_eq!(reader.get_encoding(), 1);
    assert!(reader.read_header(&header[..50]).is_err());
}

#[test]
fn cache_invalidate_removes_first_lru_slot() {
    let mut cache = PageCache::new(4, 64, EngineStats::new());
    cache.put(PageId(1), BTreeNode::new(PageId(1), BTreeNodeType::Leaf, 64), false).unwrap();
    cache.put(PageId(1), BTreeNode::new(PageId(1), BTreeNodeType::Leaf, 64), false).unwrap();
    // re-inserting keeps the older LRU slot: the order only loses its
    // first occurrence on invalidate
    assert_eq!(cache.lru, vec![PageId(1), PageId(1)]);
    cache.invalidate(PageId(1)).unwrap();
    assert_eq!(cache.lru, vec![PageId(1)]);
    assert!(cache.get(PageId(1)).is_none());
}

#[test]
fn reader_page_summary() {
    let reader = BinaryPageReader::new("some.db".to_string());
    let mut data = vec![0u8; 32];
    data[0] = 0x0D;
    data[1] = 0x00;
    data[2] = 0x10; // first free block at 16
    data[3] = 0x00;
    data[4] = 0x03; // three cells
    let pd = reader.parse_page_data(2, data).unwrap();
    assert_eq!(pd.page_type, PageType::LeafTable);
    assert_eq!(pd.free_offset, 16);
    assert_eq!(pd.cell_count, 3);
}

#[test]
fn page_manager_state() {
    let reader = BinaryPageReader::new("some.db".to_string());
    let manager = PageManager::new(reader).unwrap();
    assert!(!manager.is_page_free(1));
    assert_eq!(manager.total_pages, 0);
}

#[test]
fn info_extractor_statistics() {
    let mut extractor = DatabaseInfoExtractor::new("some.db").unwrap();
    extractor.page_size = 512;
    extractor.tables_found = vec!["a".to_string(), "b".to_string(), "c".to_string()];
    let info = extractor.compute_statistics().unwrap();
    assert_eq!(info.page_size, 512);
    assert_eq!(info.table_count, 3);
    assert_eq!(info.index_count, 1);
    assert_eq!(info.encoding, "UTF-8");
    assert_eq!(info.schema_version, 4);
}

#[test]
fn engine_stats_start_at_zero() {
    let stats = EngineStats::new();
    assert_eq!(stats.pages_read, 0);
    assert_eq!(stats.cache_hits, 0);
    assert_eq!(stats.execution_time_ns, 0);
}
