use crate::pointer::{HeapPointer, IndexPointer, ItemPointer};
use vstd::prelude::*;

verus! {

/// A neighbor edge as the graph stores it: the pointer to the neighbor's
/// node record, paired with the distance to the owning node.  The distance
/// is cached at edge-creation time so that pruning and search never have to
/// recompute it; it is carried here as the raw bit pattern of the metric
/// value, which this crate never interprets.
#[derive(Clone, Copy, PartialEq, Eq, Structural, Debug, Hash)]
pub struct NeighborWithDistance {
    index_pointer: IndexPointer,
    distance: u32,
}

impl NeighborWithDistance {
    pub closed spec fn spec_index_pointer(self) -> IndexPointer {
        self.index_pointer
    }

    pub closed spec fn spec_distance(self) -> u32 {
        self.distance
    }

    pub fn new(index_pointer: IndexPointer, distance: u32) -> (r: NeighborWithDistance)
        ensures
            r.spec_index_pointer() == index_pointer,
            r.spec_distance() == distance,
    {
        NeighborWithDistance { index_pointer, distance }
    }

    pub fn get_index_pointer_to_neighbor(&self) -> (r: IndexPointer)
        ensures
            r == self.spec_index_pointer(),
    {
        self.index_pointer
    }

    pub fn get_distance(&self) -> (r: u32)
        ensures
            r == self.spec_distance(),
    {
        self.distance
    }
}

/// A persisted graph vertex: the back-reference to the raw vector's heap
/// location, the bounded neighbor list, and (when quantization is enabled)
/// the node's quantized code.  After a write the neighbor list never exceeds
/// the index's configured maximum fan-out.
pub struct Node {
    pub heap_item_pointer: HeapPointer,
    pub neighbors: Vec<NeighborWithDistance>,
    pub pq_vector: Vec<u8>,
}

impl Node {
    /// A fresh vertex with no neighbors and no quantized code.
    pub fn new(heap_item_pointer: HeapPointer) -> (r: Node)
        ensures
            r.heap_item_pointer == heap_item_pointer,
            r.neighbors@.len() == 0,
            r.pq_vector@.len() == 0,
    {
        Node { heap_item_pointer, neighbors: Vec::new(), pq_vector: Vec::new() }
    }
}

} // verus!
