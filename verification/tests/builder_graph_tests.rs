use timescale_vector::builder_graph::BuilderGraph;
use timescale_vector::error::IndexError;
use timescale_vector::graph::{
    Graph, LowByteQuantizer, Quantizer, TableVectorProvider, TruncatePruning,
};
use timescale_vector::meta_page::MetaPage;
use timescale_vector::model::{NeighborWithDistance, Node};
use timescale_vector::pointer::ItemPointer;
use timescale_vector::pq_quantizer_storage::{
    read_pq, write_pq, CentroidTensor, RESERVED_CHUNK_OVERHEAD,
};
use timescale_vector::store::{PageStore, Record};

fn empty_provider() -> TableVectorProvider {
    TableVectorProvider::new(Vec::new())
}

fn builder(max_fan_out: u32) -> BuilderGraph<TableVectorProvider> {
    BuilderGraph::new(MetaPage::new(max_fan_out, false), empty_provider())
}

fn add_node(store: &mut PageStore, heap: ItemPointer) -> ItemPointer {
    store.append(Record::Node(Node::new(heap))).unwrap()
}

fn neighbors_of(n: usize) -> Vec<NeighborWithDistance> {
    (0..n)
        .map(|i| NeighborWithDistance::new(ItemPointer::new(9, (i + 1) as u32), i as u32))
        .collect()
}

fn node_at(store: &PageStore, p: ItemPointer) -> &Node {
    match store.read_record(p) {
        Some(Record::Node(n)) => n,
        _ => panic!("node record expected"),
    }
}

#[test]
fn first_set_neighbors_bootstraps_entry_point() {
    let mut g = builder(5);
    assert!(g.get_init_ids().is_none());
    let a = ItemPointer::new(1, 1);
    let b = ItemPointer::new(1, 2);
    g.set_neighbors(a, Vec::new());
    assert_eq!(g.get_init_ids().unwrap(), vec![a]);
    g.set_neighbors(b, neighbors_of(2));
    assert_eq!(g.get_init_ids().unwrap(), vec![a]);
}

#[test]
fn set_neighbors_overwrites_instead_of_accumulating() {
    let mut g = builder(5);
    let a = ItemPointer::new(1, 1);
    let first = neighbors_of(3);
    let second = neighbors_of(2);
    g.set_neighbors(a, first);
    g.set_neighbors(a, second.clone());
    let mut out: Vec<NeighborWithDistance> = Vec::new();
    let found = g.get_neighbors_with_distances(a, &mut out);
    assert!(found);
    assert_eq!(out, second);

    // Exactly one adjacency list remains: the flushed store holds one node
    // with the most recent list.
    let mut store = PageStore::new(100);
    let mut g2 = builder(5);
    let p = add_node(&mut store, ItemPointer::new(7, 1));
    g2.set_neighbors(p, neighbors_of(3));
    g2.set_neighbors(p, neighbors_of(1));
    let stats = g2
        .write(&mut store, &TruncatePruning, &Quantizer::<LowByteQuantizer>::Disabled)
        .unwrap();
    assert_eq!(stats.num_nodes, 1);
    assert_eq!(node_at(&store, p).neighbors.len(), 1);
}

#[test]
fn get_neighbors_distinguishes_unknown_from_empty() {
    let mut g = builder(5);
    let a = ItemPointer::new(1, 1);
    g.set_neighbors(a, Vec::new());
    let mut out: Vec<NeighborWithDistance> = Vec::new();
    assert!(g.get_neighbors_with_distances(a, &mut out));
    assert!(out.is_empty());
    assert!(!g.get_neighbors_with_distances(ItemPointer::new(2, 2), &mut out));
    assert!(out.is_empty());
    assert!(g.get_neighbors(ItemPointer::new(2, 2)).is_empty());
}

#[test]
fn get_neighbors_returns_pointers_in_list_order() {
    let mut g = builder(5);
    let a = ItemPointer::new(1, 1);
    let ns = neighbors_of(3);
    let expected: Vec<ItemPointer> =
        ns.iter().map(|n| n.get_index_pointer_to_neighbor()).collect();
    g.set_neighbors(a, ns);
    assert_eq!(g.get_neighbors(a), expected);
}

#[test]
fn scenario_empty_builder_writes_zero_nodes() {
    let mut store = PageStore::new(100);
    let g = builder(5);
    assert!(g.is_empty());
    let stats = g
        .write(&mut store, &TruncatePruning, &Quantizer::<LowByteQuantizer>::Disabled)
        .unwrap();
    assert_eq!(stats.num_nodes, 0);
    assert_eq!(stats.num_prunes, 0);
    assert_eq!(stats.num_neighbors, 0);
    assert_eq!(stats.num_neighbors_before_prune, 0);
    assert_eq!(stats.num_neighbors_after_prune, 0);
    assert_eq!(store.num_records(), 0);
}

#[test]
fn scenario_three_neighbors_under_budget_kept_verbatim() {
    let mut store = PageStore::new(100);
    let p = add_node(&mut store, ItemPointer::new(7, 1));
    let mut g = builder(5);
    let ns = neighbors_of(3);
    g.set_neighbors(p, ns.clone());
    assert!(!g.is_empty());
    let stats = g
        .write(&mut store, &TruncatePruning, &Quantizer::<LowByteQuantizer>::Disabled)
        .unwrap();
    assert_eq!(stats.num_nodes, 1);
    assert_eq!(stats.num_prunes, 0);
    assert_eq!(stats.num_neighbors, 3);
    assert_eq!(stats.num_neighbors_before_prune, 0);
    assert_eq!(stats.num_neighbors_after_prune, 0);
    assert_eq!(node_at(&store, p).neighbors, ns);
}

#[test]
fn scenario_ten_neighbors_pruned_to_budget() {
    let mut store = PageStore::new(100);
    let p = add_node(&mut store, ItemPointer::new(7, 1));
    let mut g = builder(5);
    let ns = neighbors_of(10);
    g.set_neighbors(p, ns.clone());
    let stats = g
        .write(&mut store, &TruncatePruning, &Quantizer::<LowByteQuantizer>::Disabled)
        .unwrap();
    assert_eq!(stats.num_nodes, 1);
    assert_eq!(stats.num_prunes, 1);
    assert_eq!(stats.num_neighbors_before_prune, 10);
    assert!(stats.num_neighbors_after_prune <= 5);
    assert_eq!(stats.num_neighbors, stats.num_neighbors_after_prune);
    let persisted = &node_at(&store, p).neighbors;
    assert_eq!(stats.num_neighbors_after_prune as usize, persisted.len());
    assert_eq!(stats.num_neighbors as usize, persisted.len());
    assert!(persisted.len() <= 5);
    for n in persisted.iter() {
        assert!(ns.contains(n));
    }
    // The truncating policy keeps the first five in list order.
    assert_eq!(persisted.as_slice(), &ns[..5]);
}

#[test]
fn isolated_vertex_persists_as_empty_list() {
    let mut store = PageStore::new(100);
    let p = add_node(&mut store, ItemPointer::new(7, 1));
    let mut g = builder(5);
    g.set_neighbors(p, Vec::new());
    let stats = g
        .write(&mut store, &TruncatePruning, &Quantizer::<LowByteQuantizer>::Disabled)
        .unwrap();
    assert_eq!(stats.num_nodes, 1);
    assert_eq!(stats.num_prunes, 0);
    assert_eq!(stats.num_neighbors, 0);
    assert!(node_at(&store, p).neighbors.is_empty());
}

#[test]
fn zero_fan_out_prunes_to_empty_list() {
    let mut store = PageStore::new(100);
    let p = add_node(&mut store, ItemPointer::new(7, 1));
    let mut g = builder(0);
    g.set_neighbors(p, neighbors_of(4));
    let stats = g
        .write(&mut store, &TruncatePruning, &Quantizer::<LowByteQuantizer>::Disabled)
        .unwrap();
    assert_eq!(stats.num_prunes, 1);
    assert_eq!(stats.num_neighbors, 0);
    assert!(node_at(&store, p).neighbors.is_empty());
}

#[test]
fn write_without_quantization_keeps_stored_code() {
    let mut store = PageStore::new(100);
    let mut node = Node::new(ItemPointer::new(7, 1));
    node.pq_vector = vec![9, 9, 9];
    let p = store.append(Record::Node(node)).unwrap();
    let mut g = builder(5);
    g.set_neighbors(p, neighbors_of(1));
    g.write(&mut store, &TruncatePruning, &Quantizer::<LowByteQuantizer>::Disabled)
        .unwrap();
    assert_eq!(node_at(&store, p).pq_vector, vec![9, 9, 9]);
}

#[test]
fn write_with_quantization_recomputes_code_from_raw_vector() {
    let heap = ItemPointer::new(7, 1);
    let provider = TableVectorProvider::new(vec![(heap, vec![0x1_01, 0x2_02, 0x3_03])]);
    let mut store = PageStore::new(100);
    let p = add_node(&mut store, heap);
    let mut g = BuilderGraph::new(MetaPage::new(5, true), provider);
    g.set_neighbors(p, neighbors_of(2));
    g.write(&mut store, &TruncatePruning, &Quantizer::Pq(LowByteQuantizer))
        .unwrap();
    // The low-byte quantizer keeps each element's low byte.
    assert_eq!(node_at(&store, p).pq_vector, vec![0x01, 0x02, 0x03]);
}

#[test]
fn write_fails_fast_on_dangling_node_pointer() {
    let mut store = PageStore::new(100);
    let p = add_node(&mut store, ItemPointer::new(7, 1));
    let records_before = store.num_records();
    let mut g = builder(5);
    g.set_neighbors(p, neighbors_of(1));
    g.set_neighbors(ItemPointer::new(50, 1), neighbors_of(1));
    let r = g.write(&mut store, &TruncatePruning, &Quantizer::<LowByteQuantizer>::Disabled);
    assert_eq!(r.unwrap_err(), IndexError::CorruptionFault);
    assert_eq!(store.num_records(), records_before);
    assert!(node_at(&store, p).neighbors.is_empty());
}

#[test]
fn write_fails_fast_on_wrong_record_kind() {
    let mut store = PageStore::new(100);
    let def = timescale_vector::pq_quantizer_storage::PqQuantizerDef::new(1, 1, 1, 1);
    let wrong = def.write(&mut store).unwrap();
    let mut g = builder(5);
    g.set_neighbors(wrong, neighbors_of(1));
    let r = g.write(&mut store, &TruncatePruning, &Quantizer::<LowByteQuantizer>::Disabled);
    assert_eq!(r.unwrap_err(), IndexError::CorruptionFault);
}

#[test]
fn read_through_graph_finds_committed_node() {
    let mut store = PageStore::new(100);
    let p = add_node(&mut store, ItemPointer::new(7, 3));
    let g = builder(5);
    let node = g.read(&store, p).unwrap();
    assert_eq!(node.heap_item_pointer, ItemPointer::new(7, 3));
    assert!(g.read(&store, ItemPointer::new(40, 1)).is_none());
}

#[test]
fn meta_page_accessors_reflect_configuration() {
    let g = BuilderGraph::new(MetaPage::new(11, true), empty_provider());
    let meta = g.get_meta_page();
    assert_eq!(meta.get_num_neighbors(), 11);
    assert!(meta.get_uses_quantization());
    assert!(meta.get_init_ids().is_none());
}

#[test]
fn full_build_shares_one_store_with_quantizer_payload() {
    let capacity = RESERVED_CHUNK_OVERHEAD + 10;
    let mut store = PageStore::new(1000);

    // Nodes first, then the trained quantizer's tensor, then the flush.
    let heap_a = ItemPointer::new(3, 1);
    let heap_b = ItemPointer::new(3, 2);
    let a = add_node(&mut store, heap_a);
    let b = add_node(&mut store, heap_b);

    let elems: Vec<u32> = (100..125).collect();
    let tensor = CentroidTensor::from_flat(1, 5, 5, elems.clone()).unwrap();
    let header = write_pq(&mut store, &tensor, capacity).unwrap();

    let provider = TableVectorProvider::new(vec![
        (heap_a, vec![0x0101, 0x0202]),
        (heap_b, vec![0x0303]),
    ]);
    let mut g = BuilderGraph::new(MetaPage::new(2, true), provider);
    g.set_neighbors(a, vec![NeighborWithDistance::new(b, 10)]);
    g.set_neighbors(b, neighbors_of(4));
    let stats = g
        .write(&mut store, &TruncatePruning, &Quantizer::Pq(LowByteQuantizer))
        .unwrap();
    assert_eq!(stats.num_nodes, 2);
    assert_eq!(stats.num_prunes, 1);
    assert_eq!(stats.num_neighbors_before_prune, 4);

    // Node records rewritten in place, codes recomputed from the raw vectors.
    assert_eq!(node_at(&store, a).pq_vector, vec![0x01, 0x02]);
    assert_eq!(node_at(&store, b).pq_vector, vec![0x03]);
    assert_eq!(node_at(&store, a).neighbors.len(), 1);
    assert!(node_at(&store, b).neighbors.len() <= 2);

    // The quantizer payload written earlier is untouched by the flush.
    let decoded = read_pq(&store, header, capacity).unwrap();
    assert_eq!(decoded.elements().as_slice(), elems.as_slice());
}
