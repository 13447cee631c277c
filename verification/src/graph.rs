use crate::meta_page::MetaPage;
use crate::model::{NeighborWithDistance, Node};
use crate::pointer::{IndexPointer, ItemPointer};
use crate::store::{PageStore, Record};
use crate::util::copy_vec;
use vstd::prelude::*;

verus! {

/// The vector-distance collaborator's retrieval half: hands back the full
/// raw vector stored behind a heap pointer, as element bit patterns.  The
/// stored table is fixed for the duration of a build, so what a pointer
/// resolves to is a function of the provider value alone.
pub trait VectorProvider: Sized {
    /// The raw vector behind a heap pointer.
    spec fn spec_full_vector(&self, heap_pointer: ItemPointer) -> Seq<u32>;

    /// Fetches a copy of the full raw vector behind a heap pointer.
    fn get_full_vector_copy_from_heap_pointer(&self, heap_pointer: ItemPointer) -> (v: Vec<u32>)
        ensures
            v@ == self.spec_full_vector(heap_pointer),
    ;
}

/// A trained quantizer's encoding half: maps a full raw vector to the
/// quantized code stored on the node's record.
pub trait NodeQuantizer: Sized {
    /// The code this quantizer assigns to a raw vector.
    spec fn spec_code(&self, vector: Seq<u32>) -> Seq<u8>;

    /// Computes the quantized code of a full vector.
    fn quantize(&self, vector: &Vec<u32>) -> (code: Vec<u8>)
        ensures
            code@ == self.spec_code(vector@),
    ;
}

/// The quantization mode a build runs under: vectors stored raw, or
/// compressed through a trained quantizer.
pub enum Quantizer<Q> {
    Disabled,
    Pq(Q),
}

/// The neighbor-pruning collaborator: given a node, its candidate neighbor
/// list and an optional extra-candidates list, returns a list of at most
/// `max_fan_out` entries drawn from the candidates, chosen by whatever
/// diversity policy the collaborator owns.
pub trait PruningPolicy: Sized {
    fn prune_neighbors(
        &self,
        neighbors_of: ItemPointer,
        candidates: &Vec<NeighborWithDistance>,
        extra_candidates: &Vec<NeighborWithDistance>,
        max_fan_out: u32,
    ) -> (r: Vec<NeighborWithDistance>)
        ensures
            r@.len() <= max_fan_out,
            forall|i: int|
                0 <= i < r@.len() ==> candidates@.contains(r@[i]) || extra_candidates@.contains(
                    r@[i],
                ),
    ;
}

/// The capability set any graph representation supports, so that the
/// construction and pruning algorithms are representation-agnostic.  The
/// spec functions model the graph as a partial map from node pointer to
/// neighbor list, beside the index-wide metadata it carries.
pub trait Graph: Sized {
    /// The raw-vector provider this graph consults.
    type Provider: VectorProvider;

    /// Structural soundness of the representation.
    spec fn spec_wf(&self) -> bool;

    /// Whether this graph knows the node.
    spec fn spec_contains(&self, p: ItemPointer) -> bool;

    /// The neighbor list held for a known node.
    spec fn spec_neighbors_of(&self, p: ItemPointer) -> Seq<NeighborWithDistance>;

    /// Whether the graph holds no node at all.
    spec fn spec_is_empty(&self) -> bool;

    /// The entry points, or `None` before the first node is committed.
    spec fn spec_entry_points(&self) -> Option<Seq<ItemPointer>>;

    /// The configured maximum fan-out.
    spec fn spec_max_fan_out(&self) -> u32;

    /// Whether node vectors are stored as quantized codes.
    spec fn spec_quantization(&self) -> bool;

    /// The raw-vector provider this graph consults.
    spec fn spec_vector_provider(&self) -> Self::Provider;

    /// Materializes the node a pointer addresses in the persisted store;
    /// fails when the pointer dangles or addresses another record kind.
    fn read<'b>(&self, store: &'b PageStore, index_pointer: ItemPointer) -> (r: Option<&'b Node>)
        requires
            store.wf(),
        ensures
            match r {
                Some(n) => store.spec_valid_ptr(index_pointer) && store.spec_record_at(
                    index_pointer,
                ) == Record::Node(*n),
                None => !(store.spec_valid_ptr(index_pointer) && store.spec_record_at(
                    index_pointer,
                ) matches Record::Node(_)),
            },
    ;

    /// The entry points for traversal, or `None` before the first node is
    /// committed.
    fn get_init_ids(&mut self) -> (r: Option<Vec<ItemPointer>>)
        requires
            old(self).spec_wf(),
        ensures
            *final(self) == *old(self),
            match r {
                Some(v) => old(self).spec_entry_points() == Some(v@),
                None => old(self).spec_entry_points() is None,
            },
    ;

    /// The pointers of a node's neighbors, or the empty list for a node this
    /// graph does not know.
    fn get_neighbors(&self, neighbors_of: ItemPointer) -> (r: Vec<IndexPointer>)
        requires
            self.spec_wf(),
        ensures
            self.spec_contains(neighbors_of) ==> r@ == self.spec_neighbors_of(
                neighbors_of,
            ).map_values(|n: NeighborWithDistance| n.spec_index_pointer()),
            !self.spec_contains(neighbors_of) ==> r@.len() == 0,
    ;

    /// Appends a node's neighbors, with their cached distances, onto
    /// `result`.  The flag distinguishes a node with zero neighbors (`true`,
    /// nothing appended) from a node this graph does not know (`false`).
    fn get_neighbors_with_distances(
        &self,
        neighbors_of: ItemPointer,
        result: &mut Vec<NeighborWithDistance>,
    ) -> (found: bool)
        requires
            self.spec_wf(),
        ensures
            found == self.spec_contains(neighbors_of),
            found ==> final(result)@ == old(result)@ + self.spec_neighbors_of(neighbors_of),
            !found ==> final(result)@ == old(result)@,
    ;

    fn is_empty(&self) -> (r: bool)
        requires
            self.spec_wf(),
        ensures
            r == self.spec_is_empty(),
    ;

    /// The vector-distance collaborator.
    fn get_vector_provider(&self) -> (r: &Self::Provider)
        ensures
            *r == self.spec_vector_provider(),
    ;

    /// The index-wide metadata snapshot this graph carries.
    fn get_meta_page(&self) -> (r: &MetaPage)
        ensures
            r.spec_init_ids() == self.spec_entry_points(),
            r.spec_num_neighbors() == self.spec_max_fan_out(),
            r.spec_uses_quantization() == self.spec_quantization(),
    ;

    /// Replaces a node's adjacency list wholesale.  As a side effect, the
    /// very first node ever given neighbors is registered as the sole index
    /// entry point; later calls never alter the entry points.
    fn set_neighbors(
        &mut self,
        neighbors_of: ItemPointer,
        new_neighbors: Vec<NeighborWithDistance>,
    )
        requires
            old(self).spec_wf(),
        ensures
            final(self).spec_wf(),
            final(self).spec_contains(neighbors_of),
            final(self).spec_neighbors_of(neighbors_of) == new_neighbors@,
            forall|q: ItemPointer|
                q != neighbors_of ==> #[trigger] final(self).spec_contains(q)
                    == old(self).spec_contains(q),
            forall|q: ItemPointer|
                q != neighbors_of && old(self).spec_contains(q)
                    ==> #[trigger] final(self).spec_neighbors_of(q)
                    == old(self).spec_neighbors_of(q),
            !final(self).spec_is_empty(),
            old(self).spec_entry_points() is None ==> final(self).spec_entry_points() == Some(
                seq![neighbors_of],
            ),
            old(self).spec_entry_points() is Some ==> final(self).spec_entry_points() == old(
                self,
            ).spec_entry_points(),
            final(self).spec_max_fan_out() == old(self).spec_max_fan_out(),
            final(self).spec_quantization() == old(self).spec_quantization(),
    ;
}

/// A vector provider backed by a fixed in-memory table: each heap pointer
/// maps to the vector listed first under it, and an unknown pointer maps to
/// the empty vector.
pub struct TableVectorProvider {
    entries: Vec<(ItemPointer, Vec<u32>)>,
}

/// First-match lookup over a pointer-to-vector table; the empty vector when
/// no entry carries the pointer.
pub open spec fn spec_lookup_vector(s: Seq<(ItemPointer, Vec<u32>)>, p: ItemPointer) -> Seq<u32>
    decreases s.len(),
{
    if s.len() == 0 {
        Seq::empty()
    } else if s[0].0 == p {
        s[0].1@
    } else {
        spec_lookup_vector(s.drop_first(), p)
    }
}

impl TableVectorProvider {
    /// A provider serving the given table.
    pub fn new(entries: Vec<(ItemPointer, Vec<u32>)>) -> (r: TableVectorProvider)
        ensures
            forall|p: ItemPointer| #[trigger]
                r.spec_full_vector(p) == spec_lookup_vector(entries@, p),
    {
        TableVectorProvider { entries }
    }
}

impl VectorProvider for TableVectorProvider {
    closed spec fn spec_full_vector(&self, heap_pointer: ItemPointer) -> Seq<u32> {
        spec_lookup_vector(self.entries@, heap_pointer)
    }

    #[verifier::loop_isolation(false)]
    fn get_full_vector_copy_from_heap_pointer(&self, heap_pointer: ItemPointer) -> (v: Vec<u32>) {
        let mut i: usize = 0;
        proof {
            assert(self.entries@.skip(0) =~= self.entries@);
        }
        while i < self.entries.len()
            invariant
                i <= self.entries@.len(),
                spec_lookup_vector(self.entries@, heap_pointer) == spec_lookup_vector(
                    self.entries@.skip(i as int),
                    heap_pointer,
                ),
            decreases self.entries@.len() - i,
        {
            proof {
                assert(self.entries@.skip(i as int)[0] == self.entries@[i as int]);
                assert(self.entries@.skip(i as int).drop_first() =~= self.entries@.skip(i + 1));
            }
            if self.entries[i].0.block_number == heap_pointer.block_number && self.entries[i].0.offset
                == heap_pointer.offset {
                assert(self.entries@[i as int].0 == heap_pointer);
                return copy_vec(&self.entries[i].1);
            }
            i = i + 1;
        }
        assert(self.entries@.skip(i as int).len() == 0);
        Vec::new()
    }
}

/// A quantizer that keeps each element's low byte: a stand-in code assignment
/// whose output is a pure function of the vector, used where a full trained
/// codebook is not in play.
pub struct LowByteQuantizer;

impl NodeQuantizer for LowByteQuantizer {
    open spec fn spec_code(&self, vector: Seq<u32>) -> Seq<u8> {
        vector.map_values(|e: u32| (e & 0xff) as u8)
    }

    #[verifier::loop_isolation(false)]
    fn quantize(&self, vector: &Vec<u32>) -> (code: Vec<u8>) {
        let mut code: Vec<u8> = Vec::new();
        let mut i: usize = 0;
        while i < vector.len()
            invariant
                i <= vector@.len(),
                code@.len() == i,
                forall|j: int| 0 <= j < i ==> code@[j] == (vector@[j] & 0xff) as u8,
            decreases vector@.len() - i,
        {
            code.push((vector[i] & 0xff) as u8);
            i = i + 1;
        }
        proof {
            assert(code@ =~= self.spec_code(vector@));
        }
        code
    }
}

/// A pruning policy that keeps the first `max_fan_out` candidates in list
/// order: the simplest policy meeting the contract, with no diversity
/// heuristic.
pub struct TruncatePruning;

impl PruningPolicy for TruncatePruning {
    #[verifier::loop_isolation(false)]
    fn prune_neighbors(
        &self,
        neighbors_of: ItemPointer,
        candidates: &Vec<NeighborWithDistance>,
        extra_candidates: &Vec<NeighborWithDistance>,
        max_fan_out: u32,
    ) -> (r: Vec<NeighborWithDistance>) {
        let mut r: Vec<NeighborWithDistance> = Vec::new();
        let mut i: usize = 0;
        while i < candidates.len() && i < max_fan_out as usize
            invariant
                i <= candidates@.len(),
                i <= max_fan_out,
                r@.len() == i,
                forall|j: int| 0 <= j < i ==> candidates@.contains(#[trigger] r@[j]),
            decreases candidates@.len() - i,
        {
            let n = candidates[i];
            proof {
                assert(candidates@[i as int] == n);
                assert(candidates@.contains(n));
            }
            r.push(n);
            i = i + 1;
        }
        r
    }
}

} // verus!
