use crate::error::IndexError;
use crate::graph::{Graph, NodeQuantizer, PruningPolicy, Quantizer, VectorProvider};
use crate::meta_page::MetaPage;
use crate::model::{NeighborWithDistance, Node};
use crate::pointer::{IndexPointer, ItemPointer};
use crate::store::{
    lemma_slot_injective, seq_record_at, spec_slot_of, PageStore, Record,
};
use crate::util::copy_vec;
use vstd::pervasive::VecAdditionalExecFns;
use vstd::prelude::*;

verus! {

/// Build-time bookkeeping accumulated by one `write`: node and prune counts
/// and neighbor totals before and after pruning.  Diagnostics only — nothing
/// of the persisted state depends on it.
#[derive(Debug)]
pub struct WriteStats {
    pub num_nodes: u64,
    pub num_prunes: u64,
    pub num_neighbors_before_prune: u64,
    pub num_neighbors_after_prune: u64,
    pub num_neighbors: u64,
}

impl WriteStats {
    pub fn new() -> (r: WriteStats)
        ensures
            r.num_nodes == 0,
            r.num_prunes == 0,
            r.num_neighbors_before_prune == 0,
            r.num_neighbors_after_prune == 0,
            r.num_neighbors == 0,
    {
        WriteStats {
            num_nodes: 0,
            num_prunes: 0,
            num_neighbors_before_prune: 0,
            num_neighbors_after_prune: 0,
            num_neighbors: 0,
        }
    }
}

/// The in-memory incremental graph builder.  During an index build the
/// neighbors live only in the map below, so that the persisted pages are not
/// touched on every edge change; `write` flushes every node's neighbor list
/// (pruned where over the configured fan-out) and, when quantization is
/// enabled, its recomputed code, onto the paged store in one pass.
pub struct BuilderGraph<V: VectorProvider> {
    neighbor_map: Vec<(ItemPointer, Vec<NeighborWithDistance>)>,
    meta_page: MetaPage,
    vector_provider: V,
}

impl<V: VectorProvider> BuilderGraph<V> {
    /// How many nodes the map holds.
    pub closed spec fn spec_len(self) -> int {
        self.neighbor_map@.len() as int
    }

    /// The map entry at a position: the node pointer and its neighbor list.
    pub closed spec fn spec_entry(self, i: int) -> (ItemPointer, Seq<NeighborWithDistance>) {
        (self.neighbor_map@[i].0, self.neighbor_map@[i].1@)
    }

    /// The metadata snapshot the builder carries.
    pub closed spec fn spec_meta(self) -> MetaPage {
        self.meta_page
    }

    /// The raw-vector provider the builder consults.
    pub closed spec fn spec_provider(self) -> V {
        self.vector_provider
    }

    /// Map soundness: node pointers are unique keys.
    pub open spec fn spec_wf_map(self) -> bool {
        forall|i: int, j: int|
            0 <= i < j < self.spec_len() ==> (#[trigger] self.spec_entry(i)).0 != (
            #[trigger] self.spec_entry(j)).0
    }

    pub open spec fn spec_contains_key(self, p: ItemPointer) -> bool {
        exists|i: int| 0 <= i < self.spec_len() && (#[trigger] self.spec_entry(i)).0 == p
    }

    pub open spec fn spec_index_of(self, p: ItemPointer) -> int {
        choose|i: int| 0 <= i < self.spec_len() && (#[trigger] self.spec_entry(i)).0 == p
    }

    pub open spec fn spec_neighbors(self, p: ItemPointer) -> Seq<NeighborWithDistance> {
        self.spec_entry(self.spec_index_of(p)).1
    }

    /// With unique keys, the position holding a pointer is the position the
    /// map's lookup resolves to.
    pub proof fn lemma_unique_index(self, p: ItemPointer, i: int)
        requires
            self.spec_wf_map(),
            0 <= i < self.spec_len(),
            self.spec_entry(i).0 == p,
        ensures
            self.spec_contains_key(p),
            self.spec_index_of(p) == i,
            self.spec_neighbors(p) == self.spec_entry(i).1,
    {
        assert(self.spec_contains_key(p));
        let w = self.spec_index_of(p);
        if w < i {
            assert((self.spec_entry(w)).0 != (self.spec_entry(i)).0);
        } else if w > i {
            assert((self.spec_entry(i)).0 != (self.spec_entry(w)).0);
        }
    }

    /// How many of the first `i` entries are over the fan-out budget.
    pub open spec fn spec_prunes_upto(self, m: u32, i: int) -> int
        decreases i,
    {
        if i <= 0 {
            0
        } else {
            self.spec_prunes_upto(m, i - 1) + if self.spec_entry(i - 1).1.len() > m {
                1int
            } else {
                0int
            }
        }
    }

    /// Total neighbors held by over-budget entries among the first `i`.
    pub open spec fn spec_before_upto(self, m: u32, i: int) -> int
        decreases i,
    {
        if i <= 0 {
            0
        } else {
            self.spec_before_upto(m, i - 1) + if self.spec_entry(i - 1).1.len() > m {
                self.spec_entry(i - 1).1.len() as int
            } else {
                0
            }
        }
    }

    /// Total neighbors held by within-budget entries among the first `i`.
    pub open spec fn spec_within_upto(self, m: u32, i: int) -> int
        decreases i,
    {
        if i <= 0 {
            0
        } else {
            self.spec_within_upto(m, i - 1) + if self.spec_entry(i - 1).1.len() > m {
                0
            } else {
                self.spec_entry(i - 1).1.len() as int
            }
        }
    }

    /// Total neighbors held by the first `i` entries.
    pub open spec fn spec_total_upto(self, i: int) -> int
        decreases i,
    {
        if i <= 0 {
            0
        } else {
            self.spec_total_upto(i - 1) + self.spec_entry(i - 1).1.len() as int
        }
    }

    /// Basic bounds tying the partial sums together.
    pub proof fn lemma_sums_upto(self, m: u32, i: int)
        requires
            0 <= i,
        ensures
            0 <= self.spec_prunes_upto(m, i) <= i,
            0 <= self.spec_before_upto(m, i),
            0 <= self.spec_within_upto(m, i),
            self.spec_before_upto(m, i) + self.spec_within_upto(m, i) == self.spec_total_upto(i),
        decreases i,
    {
        if i > 0 {
            self.lemma_sums_upto(m, i - 1);
        }
    }

    /// The neighbor total over a prefix never exceeds the total over a
    /// longer prefix.
    pub proof fn lemma_total_mono(self, i: int, j: int)
        requires
            0 <= i <= j,
        ensures
            self.spec_total_upto(i) <= self.spec_total_upto(j),
        decreases j - i,
    {
        if i < j {
            self.lemma_total_mono(i, j - 1);
        }
    }

    /// Whether a store slot is addressed by some map key.
    pub open spec fn spec_is_entry_slot(self, s: int) -> bool {
        exists|k: int|
            0 <= k < self.spec_len() && spec_slot_of((#[trigger] self.spec_entry(k)).0) == s
    }

    /// The length of the neighbor list persisted for the map entry at `k`:
    /// the neighbor count of the node record its pointer resolves to.
    pub open spec fn spec_persisted_len(self, news: Seq<Record>, k: int) -> int {
        match seq_record_at(news, self.spec_entry(k).0) {
            Record::Node(n) => n.neighbors@.len() as int,
            _ => 0,
        }
    }

    /// Total persisted neighbors over the first `i` entries.
    pub open spec fn spec_persisted_total_upto(self, news: Seq<Record>, i: int) -> int
        decreases i,
    {
        if i <= 0 {
            0
        } else {
            self.spec_persisted_total_upto(news, i - 1) + self.spec_persisted_len(news, i - 1)
        }
    }

    /// Total persisted neighbors over the over-budget entries among the
    /// first `i`: what pruning left of them.
    pub open spec fn spec_persisted_pruned_upto(self, m: u32, news: Seq<Record>, i: int) -> int
        decreases i,
    {
        if i <= 0 {
            0
        } else {
            self.spec_persisted_pruned_upto(m, news, i - 1) + if self.spec_entry(i - 1).1.len()
                > m {
                self.spec_persisted_len(news, i - 1)
            } else {
                0int
            }
        }
    }

    /// The persisted sums over a prefix read only the records that the
    /// prefix's entries address: store states agreeing there give the same
    /// sums.
    proof fn lemma_persisted_sums_same(self, m: u32, s1: Seq<Record>, s2: Seq<Record>, i: int)
        requires
            forall|k: int|
                0 <= k < i ==> seq_record_at(s1, (#[trigger] self.spec_entry(k)).0)
                    == seq_record_at(s2, self.spec_entry(k).0),
        ensures
            self.spec_persisted_total_upto(s1, i) == self.spec_persisted_total_upto(s2, i),
            self.spec_persisted_pruned_upto(m, s1, i) == self.spec_persisted_pruned_upto(m, s2, i),
        decreases i,
    {
        if i > 0 {
            self.lemma_persisted_sums_same(m, s1, s2, i - 1);
        }
    }

    /// What `write` leaves behind for the map entry at `k`: the node record
    /// keeps its heap back-reference; its neighbor list is the entry's list
    /// when that list is within the fan-out budget, else a list of at most
    /// `max_fan_out` entries drawn from it; and its quantized code is
    /// untouched when quantization is off, else recomputed from the node's
    /// full raw vector.
    pub open spec fn spec_node_persisted<Q: NodeQuantizer>(
        self,
        quantizer: &Quantizer<Q>,
        olds: Seq<Record>,
        news: Seq<Record>,
        k: int,
    ) -> bool {
        let p = self.spec_entry(k).0;
        let ns = self.spec_entry(k).1;
        let m = self.spec_meta().spec_num_neighbors();
        match (seq_record_at(olds, p), seq_record_at(news, p)) {
            (Record::Node(o), Record::Node(n)) => {
                &&& n.heap_item_pointer == o.heap_item_pointer
                &&& (ns.len() <= m ==> n.neighbors@ == ns)
                &&& (ns.len() > m ==> n.neighbors@.len() <= m && forall|x: int|
                    0 <= x < n.neighbors@.len() ==> ns.contains(#[trigger] n.neighbors@[x]))
                &&& match quantizer {
                    Quantizer::Disabled => n.pq_vector@ == o.pq_vector@,
                    Quantizer::Pq(q) => n.pq_vector@ == q.spec_code(
                        self.spec_provider().spec_full_vector(o.heap_item_pointer),
                    ),
                }
            },
            _ => false,
        }
    }

    /// Two builders over the same adjacency map agree on every map-level
    /// spec function, whatever their metadata or provider.
    proof fn lemma_same_map(a: BuilderGraph<V>, b: BuilderGraph<V>)
        requires
            a.neighbor_map == b.neighbor_map,
            a.spec_wf_map(),
        ensures
            a.spec_len() == b.spec_len(),
            forall|k: int| #[trigger] a.spec_entry(k) == b.spec_entry(k),
            b.spec_wf_map(),
            forall|q: ItemPointer| #[trigger] a.spec_contains_key(q) == b.spec_contains_key(q),
            forall|q: ItemPointer|
                a.spec_contains_key(q) ==> #[trigger] a.spec_neighbors(q) == b.spec_neighbors(q),
    {
        assert forall|k: int| #[trigger] a.spec_entry(k) == b.spec_entry(k) by {}
        assert forall|i: int, j: int|
            0 <= i < j < b.spec_len() implies (#[trigger] b.spec_entry(i)).0 != (
        #[trigger] b.spec_entry(j)).0 by {
            assert(a.spec_entry(i) == b.spec_entry(i));
            assert(a.spec_entry(j) == b.spec_entry(j));
        }
        assert(b.spec_wf_map());
        assert forall|q: ItemPointer| #[trigger] a.spec_contains_key(q)
            == b.spec_contains_key(q) by {
            if a.spec_contains_key(q) {
                let k = a.spec_index_of(q);
                assert(b.spec_entry(k).0 == q);
            }
            if b.spec_contains_key(q) {
                let k = b.spec_index_of(q);
                assert(a.spec_entry(k).0 == q);
            }
        }
        assert forall|q: ItemPointer|
            a.spec_contains_key(q) implies #[trigger] a.spec_neighbors(q) == b.spec_neighbors(
            q,
        ) by {
            let k = a.spec_index_of(q);
            a.lemma_unique_index(q, k);
            b.lemma_unique_index(q, k);
        }
    }

    /// A fresh builder around a metadata snapshot and a vector provider,
    /// with an empty adjacency map.
    pub fn new(meta_page: MetaPage, vp: V) -> (r: BuilderGraph<V>)
        ensures
            r.spec_wf_map(),
            r.spec_len() == 0,
            r.spec_meta() == meta_page,
            r.spec_provider() == vp,
    {
        BuilderGraph { neighbor_map: Vec::new(), meta_page, vector_provider: vp }
    }

    /// The position holding a node pointer, if the map knows it.
    #[verifier::loop_isolation(false)]
    fn find_entry(&self, p: ItemPointer) -> (r: Option<usize>)
        requires
            self.spec_wf_map(),
        ensures
            match r {
                Some(i) => 0 <= i < self.spec_len() && self.spec_entry(i as int).0 == p
                    && self.spec_contains_key(p) && self.spec_index_of(p) == i,
                None => !self.spec_contains_key(p),
            },
    {
        let mut i: usize = 0;
        while i < self.neighbor_map.len()
            invariant
                i <= self.spec_len(),
                forall|j: int| 0 <= j < i ==> (#[trigger] self.spec_entry(j)).0 != p,
            decreases self.spec_len() - i,
        {
            let key = self.neighbor_map[i].0;
            if key == p {
                proof {
                    self.lemma_unique_index(p, i as int);
                }
                return Some(i);
            }
            i = i + 1;
        }
        None
    }

    /// Flushes the builder onto the paged store, consuming it: every node's
    /// record is overwritten in place with its (possibly pruned) neighbor
    /// list and, when quantization is enabled, the code recomputed from its
    /// full raw vector; statistics are accumulated along the way.  Fails
    /// with the corruption fault — touching nothing — exactly when some map
    /// key does not resolve to a node record.
    #[verifier::loop_isolation(false)]
    pub fn write<P: PruningPolicy, Q: NodeQuantizer>(
        self,
        store: &mut PageStore,
        policy: &P,
        quantizer: &Quantizer<Q>,
    ) -> (r: Result<WriteStats, IndexError>)
        requires
            old(store).wf(),
            self.spec_wf_map(),
            self.spec_len() <= u64::MAX,
            self.spec_total_upto(self.spec_len()) <= u64::MAX,
        ensures
            final(store).wf(),
            final(store).spec_max_slots() == old(store).spec_max_slots(),
            final(store).spec_records().len() == old(store).spec_records().len(),
            r is Ok <==> (forall|k: int|
                0 <= k < self.spec_len() ==> old(store).spec_valid_ptr(
                    (#[trigger] self.spec_entry(k)).0,
                ) && old(store).spec_record_at(self.spec_entry(k).0) matches Record::Node(_)),
            match r {
                Ok(stats) => {
                    let m = self.spec_meta().spec_num_neighbors();
                    &&& stats.num_nodes == self.spec_len()
                    &&& stats.num_prunes == self.spec_prunes_upto(m, self.spec_len())
                    &&& stats.num_neighbors_before_prune == self.spec_before_upto(
                        m,
                        self.spec_len(),
                    )
                    &&& stats.num_neighbors_after_prune == self.spec_persisted_pruned_upto(
                        m,
                        final(store).spec_records(),
                        self.spec_len(),
                    )
                    &&& stats.num_neighbors_after_prune <= stats.num_prunes * m
                    &&& stats.num_neighbors == self.spec_persisted_total_upto(
                        final(store).spec_records(),
                        self.spec_len(),
                    )
                    &&& stats.num_neighbors == self.spec_within_upto(m, self.spec_len())
                        + stats.num_neighbors_after_prune
                    &&& forall|k: int|
                        0 <= k < self.spec_len() ==> self.spec_node_persisted(
                            quantizer,
                            old(store).spec_records(),
                            final(store).spec_records(),
                            k,
                        )
                    &&& forall|s: int|
                        0 <= s < old(store).spec_records().len() && !self.spec_is_entry_slot(s)
                            ==> final(store).spec_records()[s] == old(store).spec_records()[s]
                },
                Err(e) => e == IndexError::CorruptionFault && *final(store) == *old(store),
            },
    {
        // Validation pass: fail fast, before any page is touched.
        let mut i: usize = 0;
        while i < self.neighbor_map.len()
            invariant
                i <= self.spec_len(),
                forall|k: int|
                    0 <= k < i ==> old(store).spec_valid_ptr((#[trigger] self.spec_entry(k)).0)
                        && old(store).spec_record_at(self.spec_entry(k).0) matches Record::Node(_),
            decreases self.spec_len() - i,
        {
            let p = self.neighbor_map[i].0;
            proof {
                assert(p == self.spec_entry(i as int).0);
            }
            match store.read_record(p) {
                Some(Record::Node(_)) => {},
                _ => {
                    proof {
                        assert(!(old(store).spec_valid_ptr(self.spec_entry(i as int).0) && old(
                            store,
                        ).spec_record_at(self.spec_entry(i as int).0) matches Record::Node(_)));
                    }
                    return Err(IndexError::CorruptionFault);
                },
            }
            i = i + 1;
        }

        let mut stats = WriteStats::new();
        let max_fan = self.meta_page.get_num_neighbors();
        let ghost m = self.spec_meta().spec_num_neighbors();
        let mut i: usize = 0;
        while i < self.neighbor_map.len()
            invariant
                i <= self.spec_len(),
                store.wf(),
                store.spec_max_slots() == old(store).spec_max_slots(),
                store.spec_records().len() == old(store).spec_records().len(),
                stats.num_nodes == i,
                stats.num_prunes == self.spec_prunes_upto(m, i as int),
                stats.num_neighbors_before_prune == self.spec_before_upto(m, i as int),
                stats.num_neighbors_after_prune <= self.spec_before_upto(m, i as int),
                stats.num_neighbors_after_prune <= stats.num_prunes * m,
                stats.num_neighbors == self.spec_within_upto(m, i as int)
                    + stats.num_neighbors_after_prune,
                stats.num_neighbors_after_prune == self.spec_persisted_pruned_upto(
                    m,
                    store.spec_records(),
                    i as int,
                ),
                stats.num_neighbors == self.spec_persisted_total_upto(
                    store.spec_records(),
                    i as int,
                ),
                forall|k: int|
                    0 <= k < i ==> self.spec_node_persisted(
                        quantizer,
                        old(store).spec_records(),
                        store.spec_records(),
                        k,
                    ),
                forall|k: int|
                    i <= k < self.spec_len() ==> seq_record_at(
                        store.spec_records(),
                        (#[trigger] self.spec_entry(k)).0,
                    ) == seq_record_at(old(store).spec_records(), self.spec_entry(k).0),
                forall|s: int|
                    0 <= s < old(store).spec_records().len() && !self.spec_is_entry_slot(s)
                        ==> store.spec_records()[s] == old(store).spec_records()[s],
            decreases self.spec_len() - i,
        {
            let p = self.neighbor_map[i].0;
            proof {
                assert(p == self.spec_entry(i as int).0);
            }
            let (heap_pointer, old_code) = match store.read_record(p) {
                Some(Record::Node(n)) => (n.heap_item_pointer, copy_vec(&n.pq_vector)),
                _ => {
                    proof {
                        assert(false);
                    }
                    return Err(IndexError::CorruptionFault);
                },
            };
            let ghost old_code_view = old_code@;
            let ghost olds = old(store).spec_records();
            proof {
                match seq_record_at(olds, p) {
                    Record::Node(o) => {
                        assert(o.heap_item_pointer == heap_pointer);
                        assert(o.pq_vector@ == old_code_view);
                    },
                    _ => {
                        assert(false);
                    },
                }
            }
            stats.num_nodes = stats.num_nodes + 1;
            let n_len = self.neighbor_map[i].1.len();
            proof {
                self.lemma_sums_upto(m, i as int);
                self.lemma_sums_upto(m, i as int + 1);
                self.lemma_total_mono(i as int + 1, self.spec_len());
            }
            let persisted: Vec<NeighborWithDistance>;
            if n_len > max_fan as usize {
                stats.num_prunes = stats.num_prunes + 1;
                stats.num_neighbors_before_prune = stats.num_neighbors_before_prune + (
                n_len as u64);
                let extra: Vec<NeighborWithDistance> = Vec::new();
                persisted = policy.prune_neighbors(p, &self.neighbor_map[i].1, &extra, max_fan);
                stats.num_neighbors_after_prune = stats.num_neighbors_after_prune + (
                persisted.len() as u64);
                proof {
                    assert(stats.num_neighbors_after_prune <= stats.num_prunes * m) by {
                        assert((stats.num_prunes - 1) * m + m == stats.num_prunes * m)
                            by (nonlinear_arith);
                    }
                }
            } else {
                persisted = copy_vec(&self.neighbor_map[i].1);
            }
            let ghost persisted_view = persisted@;
            proof {
                let ns = self.spec_entry(i as int).1;
                if n_len > m {
                    assert(persisted_view.len() <= m);
                    assert forall|x: int|
                        0 <= x < persisted_view.len() implies ns.contains(
                        #[trigger] persisted_view[x]) by {}
                } else {
                    assert(persisted_view == ns);
                }
            }
            stats.num_neighbors = stats.num_neighbors + (persisted.len() as u64);
            let pq_code: Vec<u8>;
            match quantizer {
                Quantizer::Disabled => {
                    pq_code = old_code;
                },
                Quantizer::Pq(q) => {
                    let full = self.vector_provider.get_full_vector_copy_from_heap_pointer(
                        heap_pointer,
                    );
                    pq_code = q.quantize(&full);
                },
            }
            let ghost code_view = pq_code@;
            proof {
                match quantizer {
                    Quantizer::Disabled => {
                        assert(code_view == old_code_view);
                    },
                    Quantizer::Pq(q) => {
                        assert(code_view == q.spec_code(
                            self.spec_provider().spec_full_vector(heap_pointer),
                        ));
                    },
                }
            }
            let node = Node {
                heap_item_pointer: heap_pointer,
                neighbors: persisted,
                pq_vector: pq_code,
            };
            let ghost pre_records = store.spec_records();
            match store.overwrite(p, Record::Node(node)) {
                Ok(_) => {},
                Err(e) => {
                    proof {
                        assert(false);
                    }
                    return Err(e);
                },
            }
            proof {
                let news = store.spec_records();
                match seq_record_at(news, p) {
                    Record::Node(n) => {
                        assert(n.heap_item_pointer == heap_pointer);
                        assert(n.neighbors@ == persisted_view);
                        assert(n.pq_vector@ == code_view);
                    },
                    _ => {
                        assert(false);
                    },
                }
                assert(self.spec_node_persisted(quantizer, olds, news, i as int));
                assert forall|k: int| 0 <= k < i + 1 implies self.spec_node_persisted(
                    quantizer,
                    olds,
                    news,
                    k,
                ) by {
                    if k < i {
                        assert(self.spec_node_persisted(quantizer, olds, pre_records, k));
                        assert(self.spec_entry(k).0 != self.spec_entry(i as int).0);
                        assert(old(store).spec_valid_ptr(self.spec_entry(k).0));
                        lemma_slot_injective(self.spec_entry(k).0, p);
                        assert(0 <= spec_slot_of(self.spec_entry(k).0) < pre_records.len());
                        assert(seq_record_at(news, self.spec_entry(k).0) == seq_record_at(
                            pre_records,
                            self.spec_entry(k).0,
                        ));
                    }
                }
                assert forall|k: int| 0 <= k < i implies seq_record_at(
                    news,
                    (#[trigger] self.spec_entry(k)).0,
                ) == seq_record_at(pre_records, self.spec_entry(k).0) by {
                    assert(self.spec_entry(k).0 != self.spec_entry(i as int).0);
                    assert(old(store).spec_valid_ptr(self.spec_entry(k).0));
                    lemma_slot_injective(self.spec_entry(k).0, p);
                }
                self.lemma_persisted_sums_same(m, pre_records, news, i as int);
                assert(self.spec_persisted_len(news, i as int) == persisted_view.len());
                assert forall|k: int| i + 1 <= k < self.spec_len() implies seq_record_at(
                    news,
                    (#[trigger] self.spec_entry(k)).0,
                ) == seq_record_at(olds, self.spec_entry(k).0) by {
                    assert(self.spec_entry(k).0 != self.spec_entry(i as int).0);
                    lemma_slot_injective(self.spec_entry(k).0, p);
                }
                assert forall|s: int|
                    0 <= s < olds.len() && !self.spec_is_entry_slot(s) implies news[s]
                    == olds[s] by {
                    assert(spec_slot_of((self.spec_entry(i as int)).0) != s);
                }
            }
            i = i + 1;
        }
        Ok(stats)
    }
}

impl<V: VectorProvider> Graph for BuilderGraph<V> {
    type Provider = V;

    open spec fn spec_wf(&self) -> bool {
        self.spec_wf_map()
    }

    open spec fn spec_contains(&self, p: ItemPointer) -> bool {
        self.spec_contains_key(p)
    }

    open spec fn spec_neighbors_of(&self, p: ItemPointer) -> Seq<NeighborWithDistance> {
        self.spec_neighbors(p)
    }

    open spec fn spec_is_empty(&self) -> bool {
        self.spec_len() == 0
    }

    open spec fn spec_entry_points(&self) -> Option<Seq<ItemPointer>> {
        self.spec_meta().spec_init_ids()
    }

    open spec fn spec_max_fan_out(&self) -> u32 {
        self.spec_meta().spec_num_neighbors()
    }

    open spec fn spec_quantization(&self) -> bool {
        self.spec_meta().spec_uses_quantization()
    }

    open spec fn spec_vector_provider(&self) -> V {
        self.spec_provider()
    }

    fn read<'b>(&self, store: &'b PageStore, index_pointer: ItemPointer) -> (r: Option<&'b Node>) {
        match store.read_record(index_pointer) {
            Some(Record::Node(n)) => Some(n),
            _ => None,
        }
    }

    fn get_init_ids(&mut self) -> (r: Option<Vec<ItemPointer>>) {
        self.meta_page.get_init_ids()
    }

    #[verifier::loop_isolation(false)]
    fn get_neighbors(&self, neighbors_of: ItemPointer) -> (r: Vec<IndexPointer>) {
        match self.find_entry(neighbors_of) {
            Some(i) => {
                let ns = &self.neighbor_map[i].1;
                let mut r: Vec<IndexPointer> = Vec::new();
                let mut j: usize = 0;
                while j < ns.len()
                    invariant
                        j <= ns@.len(),
                        r@.len() == j,
                        forall|x: int| 0 <= x < j ==> r@[x] == ns@[x].spec_index_pointer(),
                    decreases ns@.len() - j,
                {
                    r.push(ns[j].get_index_pointer_to_neighbor());
                    j = j + 1;
                }
                proof {
                    assert(r@ =~= self.spec_neighbors(neighbors_of).map_values(
                        |n: NeighborWithDistance| n.spec_index_pointer(),
                    ));
                }
                r
            },
            None => Vec::new(),
        }
    }

    #[verifier::loop_isolation(false)]
    fn get_neighbors_with_distances(
        &self,
        neighbors_of: ItemPointer,
        result: &mut Vec<NeighborWithDistance>,
    ) -> (found: bool) {
        let ghost base = old(result)@;
        match self.find_entry(neighbors_of) {
            Some(i) => {
                let ns = &self.neighbor_map[i].1;
                let mut j: usize = 0;
                while j < ns.len()
                    invariant
                        j <= ns@.len(),
                        result@ == base + ns@.take(j as int),
                    decreases ns@.len() - j,
                {
                    result.push(ns[j]);
                    proof {
                        assert(base + ns@.take(j as int) + seq![ns@[j as int]] =~= base + ns@.take(
                            j as int + 1,
                        ));
                    }
                    j = j + 1;
                }
                proof {
                    assert(ns@.take(ns@.len() as int) =~= ns@);
                }
                true
            },
            None => false,
        }
    }

    fn is_empty(&self) -> (r: bool) {
        self.neighbor_map.len() == 0
    }

    fn get_vector_provider(&self) -> (r: &V) {
        &self.vector_provider
    }

    fn get_meta_page(&self) -> (r: &MetaPage) {
        &self.meta_page
    }

    fn set_neighbors(
        &mut self,
        neighbors_of: ItemPointer,
        new_neighbors: Vec<NeighborWithDistance>,
    ) {
        let needs_bootstrap = match self.meta_page.get_init_ids() {
            None => true,
            Some(_) => false,
        };
        if needs_bootstrap {
            let mut ids: Vec<ItemPointer> = Vec::new();
            ids.push(neighbors_of);
            proof {
                assert(ids@ =~= seq![neighbors_of]);
            }
            self.meta_page.update_init_ids(ids);
        }
        proof {
            Self::lemma_same_map(*old(self), *self);
        }
        let ghost pre = *self;
        match self.find_entry(neighbors_of) {
            Some(i) => {
                self.neighbor_map.set(i, (neighbors_of, new_neighbors));
                proof {
                    assert forall|k: int| 0 <= k < self.spec_len() implies (
                    #[trigger] self.spec_entry(k)).0 == pre.spec_entry(k).0 by {}
                    self.lemma_unique_index(neighbors_of, i as int);
                    assert forall|q: ItemPointer|
                        q != neighbors_of implies #[trigger] self.spec_contains_key(q)
                        == pre.spec_contains_key(q) by {
                        if pre.spec_contains_key(q) {
                            let k = pre.spec_index_of(q);
                            assert(self.spec_entry(k).0 == q);
                        }
                        if self.spec_contains_key(q) {
                            let k = self.spec_index_of(q);
                            assert(pre.spec_entry(k).0 == q);
                        }
                    }
                    assert forall|q: ItemPointer|
                        q != neighbors_of && pre.spec_contains_key(q)
                        implies #[trigger] self.spec_neighbors(q) == pre.spec_neighbors(q) by {
                        let k = pre.spec_index_of(q);
                        pre.lemma_unique_index(q, k);
                        self.lemma_unique_index(q, k);
                    }
                }
            },
            None => {
                proof {
                    assert forall|k: int|
                        0 <= k < pre.spec_len() implies (#[trigger] pre.spec_entry(k)).0
                        != neighbors_of by {
                        if pre.spec_entry(k).0 == neighbors_of {
                            assert(pre.spec_contains_key(neighbors_of));
                        }
                    }
                }
                self.neighbor_map.push((neighbors_of, new_neighbors));
                proof {
                    assert forall|k: int| 0 <= k < pre.spec_len() implies (
                    #[trigger] self.spec_entry(k)).0 == pre.spec_entry(k).0 by {}
                    assert(self.spec_entry(pre.spec_len()).0 == neighbors_of);
                    self.lemma_unique_index(neighbors_of, pre.spec_len());
                    assert forall|q: ItemPointer|
                        q != neighbors_of implies #[trigger] self.spec_contains_key(q)
                        == pre.spec_contains_key(q) by {
                        if pre.spec_contains_key(q) {
                            let k = pre.spec_index_of(q);
                            assert(self.spec_entry(k).0 == q);
                        }
                        if self.spec_contains_key(q) {
                            let k = self.spec_index_of(q);
                            assert(0 <= k < pre.spec_len());
                            assert(pre.spec_entry(k).0 == q);
                        }
                    }
                    assert forall|q: ItemPointer|
                        q != neighbors_of && pre.spec_contains_key(q)
                        implies #[trigger] self.spec_neighbors(q) == pre.spec_neighbors(q) by {
                        let k = pre.spec_index_of(q);
                        pre.lemma_unique_index(q, k);
                        self.lemma_unique_index(q, k);
                    }
                }
            },
        }
    }
}

} // verus!
