use crate::error::IndexError;
use crate::pointer::ItemPointer;
use crate::store::{
    lemma_ptr_of_slot_roundtrip, seq_record_at, seq_valid_ptr, spec_ptr_of_slot, spec_slot_of,
    PageStore, Record,
};
use crate::util::{copy_range, copy_vec};
use vstd::arithmetic::div_mod::{
    lemma_div_is_ordered, lemma_fundamental_div_mod_converse,
};
use vstd::prelude::*;

verus! {

/// Page capacity counted in tensor elements: the host block size divided by
/// the element width.
pub const DEFAULT_PAGE_CAPACITY_ELEMS: usize = 2048;

/// Elements' worth of page space reserved for the back-pointer and the other
/// bookkeeping fields that share a chunk page.
pub const RESERVED_CHUNK_OVERHEAD: usize = 72;

/// Persisted header describing a stored quantizer: the centroid tensor shape
/// `(subspaces, clusters per subspace, subvector length)`, the total
/// flattened element count, and a pointer to the head of the payload chain.
#[derive(Clone, Copy, PartialEq, Eq, Structural, Debug)]
pub struct PqQuantizerDef {
    pub dim_0: usize,
    pub dim_1: usize,
    pub dim_2: usize,
    pub vec_len: usize,
    pub next_vector_pointer: ItemPointer,
}

/// One fixed-capacity chunk of a flattened tensor (or of a node's quantized
/// code), plus the pointer to the chunk written before it.  Chains are built
/// back to front, so the previously written chunk is the logically *next*
/// one at decode time.  Elements are carried as raw bit patterns; the crate
/// never interprets them.
pub struct PqQuantizerVector {
    pub vec: Vec<u32>,
    pub next_vector_pointer: ItemPointer,
}

impl PqQuantizerDef {
    pub fn new(dim_0: usize, dim_1: usize, dim_2: usize, vec_len: usize) -> (r: PqQuantizerDef)
        ensures
            r.dim_0 == dim_0,
            r.dim_1 == dim_1,
            r.dim_2 == dim_2,
            r.vec_len == vec_len,
            r.next_vector_pointer.spec_is_null(),
    {
        PqQuantizerDef {
            dim_0,
            dim_1,
            dim_2,
            vec_len,
            next_vector_pointer: ItemPointer::null(),
        }
    }

    /// Appends this header onto the tape and returns its address.
    pub fn write(&self, tape: &mut PageStore) -> (r: Result<ItemPointer, IndexError>)
        requires
            old(tape).wf(),
        ensures
            final(tape).wf(),
            final(tape).spec_max_slots() == old(tape).spec_max_slots(),
            r is Ok <==> old(tape).spec_records().len() < old(tape).spec_max_slots(),
            match r {
                Ok(p) => {
                    &&& final(tape).spec_records() == old(tape).spec_records().push(
                        Record::QuantizerDef(*self),
                    )
                    &&& p == spec_ptr_of_slot(old(tape).spec_records().len() as int)
                    &&& final(tape).spec_valid_ptr(p)
                    &&& !p.spec_is_null()
                },
                Err(e) => e == IndexError::AllocationFault && *final(tape) == *old(tape),
            },
    {
        tape.append(Record::QuantizerDef(*self))
    }

    /// Resolves a pointer to the header stored behind it; any other record
    /// kind (or a dangling pointer) is a corruption fault.
    pub fn read(store: &PageStore, index_pointer: ItemPointer) -> (r: Result<
        PqQuantizerDef,
        IndexError,
    >)
        requires
            store.wf(),
        ensures
            match r {
                Ok(d) => store.spec_valid_ptr(index_pointer) && store.spec_record_at(index_pointer)
                    == Record::QuantizerDef(d),
                Err(e) => {
                    &&& e == IndexError::CorruptionFault
                    &&& !(store.spec_valid_ptr(index_pointer) && store.spec_record_at(
                        index_pointer,
                    ) matches Record::QuantizerDef(_))
                },
            },
    {
        match store.read_record(index_pointer) {
            Some(Record::QuantizerDef(d)) => Ok(*d),
            _ => Err(IndexError::CorruptionFault),
        }
    }
}

impl PqQuantizerVector {
    /// Appends this chunk onto the tape and returns its address.
    pub fn write(&self, tape: &mut PageStore) -> (r: Result<ItemPointer, IndexError>)
        requires
            old(tape).wf(),
        ensures
            final(tape).wf(),
            final(tape).spec_max_slots() == old(tape).spec_max_slots(),
            r is Ok <==> old(tape).spec_records().len() < old(tape).spec_max_slots(),
            match r {
                Ok(p) => {
                    &&& final(tape).spec_records().len() == old(tape).spec_records().len() + 1
                    &&& final(tape).spec_records().take(old(tape).spec_records().len() as int)
                        == old(tape).spec_records()
                    &&& p == spec_ptr_of_slot(old(tape).spec_records().len() as int)
                    &&& final(tape).spec_valid_ptr(p)
                    &&& !p.spec_is_null()
                    &&& match final(tape).spec_record_at(p) {
                        Record::QuantizerVector(v) => v.vec@ == self.vec@
                            && v.next_vector_pointer == self.next_vector_pointer,
                        _ => false,
                    }
                },
                Err(e) => e == IndexError::AllocationFault && *final(tape) == *old(tape),
            },
    {
        let record = Record::QuantizerVector(
            PqQuantizerVector {
                vec: copy_vec(&self.vec),
                next_vector_pointer: self.next_vector_pointer,
            },
        );
        let r = tape.append(record);
        proof {
            if r is Ok {
                assert(final(tape).spec_records().take(old(tape).spec_records().len() as int)
                    =~= old(tape).spec_records());
            }
        }
        r
    }

    /// Resolves a pointer to the chunk stored behind it; any other record
    /// kind (or a dangling pointer) is a corruption fault.
    pub fn read<'a>(store: &'a PageStore, index_pointer: ItemPointer) -> (r: Result<
        &'a PqQuantizerVector,
        IndexError,
    >)
        requires
            store.wf(),
        ensures
            match r {
                Ok(v) => store.spec_valid_ptr(index_pointer) && store.spec_record_at(index_pointer)
                    == Record::QuantizerVector(*v),
                Err(e) => {
                    &&& e == IndexError::CorruptionFault
                    &&& !(store.spec_valid_ptr(index_pointer) && store.spec_record_at(
                        index_pointer,
                    ) matches Record::QuantizerVector(_))
                },
            },
    {
        match store.read_record(index_pointer) {
            Some(Record::QuantizerVector(v)) => Ok(v),
            _ => Err(IndexError::CorruptionFault),
        }
    }
}

/// A trained quantizer's centroid tensor, held as its shape and the flat
/// element sequence in row-major memory order.  Elements are raw bit
/// patterns of the metric values; the crate stores and moves them without
/// interpreting them.
pub struct CentroidTensor {
    dim_0: usize,
    dim_1: usize,
    dim_2: usize,
    elements: Vec<u32>,
}

impl CentroidTensor {
    pub closed spec fn spec_dim_0(self) -> usize {
        self.dim_0
    }

    pub closed spec fn spec_dim_1(self) -> usize {
        self.dim_1
    }

    pub closed spec fn spec_dim_2(self) -> usize {
        self.dim_2
    }

    pub closed spec fn spec_elements(self) -> Seq<u32> {
        self.elements@
    }

    /// The flat element count matches the shape.
    pub open spec fn wf(self) -> bool {
        self.spec_dim_0() * self.spec_dim_1() * self.spec_dim_2()
            == self.spec_elements().len()
    }

    /// Builds a tensor from its shape and flattened elements; rejects a
    /// count that does not match the shape, as a corruption fault.
    pub fn from_flat(dim_0: usize, dim_1: usize, dim_2: usize, elements: Vec<u32>) -> (r: Result<
        CentroidTensor,
        IndexError,
    >)
        ensures
            r is Ok <==> dim_0 * dim_1 * dim_2 == elements@.len(),
            match r {
                Ok(t) => {
                    &&& t.wf()
                    &&& t.spec_dim_0() == dim_0
                    &&& t.spec_dim_1() == dim_1
                    &&& t.spec_dim_2() == dim_2
                    &&& t.spec_elements() == elements@
                },
                Err(e) => e == IndexError::CorruptionFault,
            },
    {
        if shape_product_matches(dim_0, dim_1, dim_2, elements.len()) {
            Ok(CentroidTensor { dim_0, dim_1, dim_2, elements })
        } else {
            Err(IndexError::CorruptionFault)
        }
    }

    pub fn dims(&self) -> (r: (usize, usize, usize))
        ensures
            r.0 == self.spec_dim_0(),
            r.1 == self.spec_dim_1(),
            r.2 == self.spec_dim_2(),
    {
        (self.dim_0, self.dim_1, self.dim_2)
    }

    pub fn elements(&self) -> (r: &Vec<u32>)
        ensures
            r@ == self.spec_elements(),
    {
        &self.elements
    }
}

/// Whether the shape product equals the element count, computed without
/// overflowing.
fn shape_product_matches(dim_0: usize, dim_1: usize, dim_2: usize, len: usize) -> (r: bool)
    ensures
        r == (dim_0 * dim_1 * dim_2 == len),
{
    if dim_0 == 0 || dim_1 == 0 || dim_2 == 0 {
        proof {
            assert(dim_0 * dim_1 * dim_2 == 0) by (nonlinear_arith)
                requires
                    dim_0 == 0 || dim_1 == 0 || dim_2 == 0,
            ;
        }
        return len == 0;
    }
    match dim_0.checked_mul(dim_1) {
        Some(d01) => match d01.checked_mul(dim_2) {
            Some(product) => product == len,
            None => {
                proof {
                    assert(dim_0 * dim_1 * dim_2 > usize::MAX);
                }
                false
            },
        },
        None => {
            proof {
                assert(dim_0 * dim_1 * dim_2 >= dim_0 * dim_1) by (nonlinear_arith)
                    requires
                        dim_2 >= 1,
                        dim_0 * dim_1 >= 0,
                ;
            }
            false
        },
    }
}

/// How many elements of a flattened payload fit in one chunk page: the page
/// capacity less the reserved overhead.  A capacity that leaves no room for
/// even one element is the capacity fault.
pub fn chunk_capacity(page_capacity_elems: usize) -> (r: Result<usize, IndexError>)
    ensures
        r is Ok <==> page_capacity_elems > RESERVED_CHUNK_OVERHEAD,
        match r {
            Ok(fit) => fit == page_capacity_elems - RESERVED_CHUNK_OVERHEAD && fit >= 1,
            Err(e) => e == IndexError::CapacityFault,
        },
{
    if page_capacity_elems > RESERVED_CHUNK_OVERHEAD {
        Ok(page_capacity_elems - RESERVED_CHUNK_OVERHEAD)
    } else {
        Err(IndexError::CapacityFault)
    }
}

/// How many chunks a payload of `len` elements occupies at `fit` elements
/// per chunk: zero for an empty payload, else the rounded-up quotient.
pub open spec fn spec_chunk_count(len: int, fit: int) -> int
    recommends
        fit >= 1,
{
    if len <= 0 {
        0
    } else {
        (len - 1) / fit + 1
    }
}

/// The elements a chain reassembles to, in chain-traversal order, following
/// at most `hops` pointers: `None` when a pointer dangles, resolves to the
/// wrong record kind, or the chain fails to terminate within the hop budget.
pub open spec fn spec_chain_elements(s: Seq<Record>, p: ItemPointer, hops: nat) -> Option<Seq<u32>>
    decreases hops,
{
    if p.spec_is_null() {
        Some(Seq::empty())
    } else if hops == 0 {
        None
    } else if !seq_valid_ptr(s, p) {
        None
    } else {
        match seq_record_at(s, p) {
            Record::QuantizerVector(v) => match spec_chain_elements(
                s,
                v.next_vector_pointer,
                (hops - 1) as nat,
            ) {
                Some(rest) => Some(v.vec@ + rest),
                None => None,
            },
            _ => None,
        }
    }
}

/// What a stored quantizer decodes to behind a header pointer: the header
/// and the reassembled flat elements, provided the header's shape matches
/// its declared count, the chain terminates within the expected hop budget,
/// and the reassembled length equals the declared count.
pub open spec fn spec_decode_quantizer(s: Seq<Record>, p: ItemPointer, fit: int) -> Option<
    (PqQuantizerDef, Seq<u32>),
>
    recommends
        fit >= 1,
{
    if seq_valid_ptr(s, p) {
        match seq_record_at(s, p) {
            Record::QuantizerDef(def) => if def.dim_0 * def.dim_1 * def.dim_2 == def.vec_len {
                match spec_chain_elements(
                    s,
                    def.next_vector_pointer,
                    spec_chunk_count(def.vec_len as int, fit) as nat,
                ) {
                    Some(elems) => if elems.len() == def.vec_len {
                        Some((def, elems))
                    } else {
                        None
                    },
                    None => None,
                }
            } else {
                None
            },
            _ => None,
        }
    } else {
        None
    }
}

/// Where the `j`-th written chunk's element range starts: chunks are taken
/// from the tail, `fit` elements at a time, so the range is clipped at zero
/// for the last-written (logically first) chunk.
pub open spec fn spec_chunk_lo(len: int, fit: int, j: int) -> int {
    if len - (j + 1) * fit >= 0 {
        len - (j + 1) * fit
    } else {
        0
    }
}

/// Whether slot `base + j` holds exactly the `j`-th written chunk of the
/// flattened elements: the `j`-th tail range, with a back-pointer to the
/// chunk written before it — the null sentinel for the first.
pub open spec fn spec_chunk_at(
    records: Seq<Record>,
    base: int,
    elems: Seq<u32>,
    fit: int,
    j: int,
) -> bool {
    match records[base + j] {
        Record::QuantizerVector(v) => {
            &&& v.vec@ == elems.subrange(
                spec_chunk_lo(elems.len() as int, fit, j),
                elems.len() - j * fit,
            )
            &&& (j == 0 ==> v.next_vector_pointer.spec_is_null())
            &&& (j > 0 ==> v.next_vector_pointer == spec_ptr_of_slot(base + j - 1))
        },
        _ => false,
    }
}

/// The exact page layout encoding leaves behind when `base` records already
/// filled the store: every chunk holds `fit` elements except the last
/// written, which holds the remainder and heads the chain; the header sits
/// on the slot after every chunk — so a failed build never leaves a header
/// over a partial chain — and points at the last-written chunk.
pub open spec fn spec_encoded_layout(
    records: Seq<Record>,
    base: int,
    dim_0: usize,
    dim_1: usize,
    dim_2: usize,
    elems: Seq<u32>,
    fit: int,
) -> bool {
    let n = spec_chunk_count(elems.len() as int, fit);
    &&& forall|j: int| 0 <= j < n ==> #[trigger] spec_chunk_at(records, base, elems, fit, j)
    &&& match records[base + n] {
        Record::QuantizerDef(def) => {
            &&& def.dim_0 == dim_0
            &&& def.dim_1 == dim_1
            &&& def.dim_2 == dim_2
            &&& def.vec_len == elems.len()
            &&& (n == 0 ==> def.next_vector_pointer.spec_is_null())
            &&& (n > 0 ==> def.next_vector_pointer == spec_ptr_of_slot(base + n - 1))
        },
        _ => false,
    }
}

/// Law (chain termination): a chain that reassembles within some hop budget
/// reassembles to the same elements within any larger budget.  The decoder's
/// budget of one hop per `fit` declared elements is therefore canonical: no
/// terminating chain is cut short by it, and one that fails to terminate
/// within it never terminates at all.
pub proof fn lemma_chain_hops_monotone(s: Seq<Record>, p: ItemPointer, h1: nat, h2: nat)
    requires
        h1 <= h2,
        spec_chain_elements(s, p, h1) is Some,
    ensures
        spec_chain_elements(s, p, h2) == spec_chain_elements(s, p, h1),
    decreases h1,
{
    if !p.spec_is_null() {
        match seq_record_at(s, p) {
            Record::QuantizerVector(v) => {
                lemma_chain_hops_monotone(s, v.next_vector_pointer, (h1 - 1) as nat, (h2 - 1) as nat);
            },
            _ => {
                assert(false);
            },
        }
    }
}

/// A chain that reassembles over some store contents reassembles to the same
/// elements after records are appended: existing slots are untouched.
pub proof fn lemma_chain_elements_prefix(s1: Seq<Record>, s2: Seq<Record>, p: ItemPointer, hops: nat)
    requires
        s1.len() <= s2.len(),
        s2.take(s1.len() as int) == s1,
        spec_chain_elements(s1, p, hops) is Some,
    ensures
        spec_chain_elements(s2, p, hops) == spec_chain_elements(s1, p, hops),
    decreases hops,
{
    if !p.spec_is_null() {
        assert(seq_valid_ptr(s1, p));
        let slot = crate::store::spec_slot_of(p);
        assert(s2[slot] == s2.take(s1.len() as int)[slot]);
        match seq_record_at(s1, p) {
            Record::QuantizerVector(v) => {
                lemma_chain_elements_prefix(s1, s2, v.next_vector_pointer, (hops - 1) as nat);
            },
            _ => {
                assert(false);
            },
        }
    }
}

/// A chunk index strictly below the chunk count remains below it after one
/// more full chunk is taken, as long as elements remain.
proof fn lemma_chunk_index_below(done: int, fit: int, total: int)
    requires
        fit >= 1,
        0 <= done,
        done * fit < total,
    ensures
        done < spec_chunk_count(total, fit),
{
    lemma_div_is_ordered(done * fit, total - 1, fit);
    lemma_fundamental_div_mod_converse(done * fit, fit, done, 0);
}

/// Taking the final, short-or-full chunk lands exactly on the chunk count.
proof fn lemma_chunk_index_final(done: int, fit: int, total: int)
    requires
        fit >= 1,
        0 <= done,
        done * fit < total,
        total <= done * fit + fit,
    ensures
        done + 1 == spec_chunk_count(total, fit),
{
    lemma_fundamental_div_mod_converse(total - 1, fit, done, total - 1 - done * fit);
}

/// Serializes a centroid tensor into the paged store: the flattened
/// elements are split into page-sized chunks from the tail, each chunk is
/// written with a back-pointer to the previously written chunk (the null
/// sentinel for the first), and the header — shape, element count, and the
/// pointer to the last-written chunk, which heads the chain at decode time —
/// is written only after every chunk succeeded.  Returns the header's
/// address; decoding it reassembles exactly the elements passed in.
#[verifier::loop_isolation(false)]
pub fn write_pq(store: &mut PageStore, tensor: &CentroidTensor, page_capacity_elems: usize) -> (r:
    Result<ItemPointer, IndexError>)
    requires
        old(store).wf(),
        tensor.wf(),
    ensures
        final(store).wf(),
        final(store).spec_max_slots() == old(store).spec_max_slots(),
        r is Ok <==> (page_capacity_elems > RESERVED_CHUNK_OVERHEAD && old(
            store,
        ).spec_records().len() + spec_chunk_count(
            tensor.spec_elements().len() as int,
            page_capacity_elems - RESERVED_CHUNK_OVERHEAD,
        ) + 1 <= old(store).spec_max_slots()),
        match r {
            Ok(p) => {
                let fit = page_capacity_elems - RESERVED_CHUNK_OVERHEAD;
                let n_chunks = spec_chunk_count(tensor.spec_elements().len() as int, fit as int);
                &&& final(store).spec_records().len() == old(store).spec_records().len() + n_chunks
                    + 1
                &&& final(store).spec_records().take(old(store).spec_records().len() as int) == old(
                    store,
                ).spec_records()
                &&& final(store).spec_valid_ptr(p)
                &&& p == spec_ptr_of_slot(old(store).spec_records().len() + n_chunks)
                &&& spec_encoded_layout(
                    final(store).spec_records(),
                    old(store).spec_records().len() as int,
                    tensor.spec_dim_0(),
                    tensor.spec_dim_1(),
                    tensor.spec_dim_2(),
                    tensor.spec_elements(),
                    fit as int,
                )
                &&& match spec_decode_quantizer(final(store).spec_records(), p, fit as int) {
                    Some(pair) => {
                        &&& pair.0.dim_0 == tensor.spec_dim_0()
                        &&& pair.0.dim_1 == tensor.spec_dim_1()
                        &&& pair.0.dim_2 == tensor.spec_dim_2()
                        &&& pair.0.vec_len == tensor.spec_elements().len()
                        &&& pair.1 == tensor.spec_elements()
                    },
                    None => false,
                }
            },
            Err(e) => {
                &&& *final(store) == *old(store)
                &&& (e == IndexError::CapacityFault || e == IndexError::AllocationFault)
                &&& (e == IndexError::CapacityFault <==> page_capacity_elems
                    <= RESERVED_CHUNK_OVERHEAD)
            },
        },
{
    let fit = match chunk_capacity(page_capacity_elems) {
        Ok(f) => f,
        Err(e) => {
            return Err(e);
        },
    };
    let total = tensor.elements.len();
    let n_chunks: usize = if total == 0 {
        0
    } else {
        (total - 1) / fit + 1
    };
    assert(n_chunks == spec_chunk_count(total as int, fit as int));

    // Allocation precheck: every chunk plus the header must fit, so that a
    // failed build never leaves a partial chain referenced by a header.
    let used = store.num_records();
    let cap = store.max_slots();
    let room = cap - used;
    if room == 0 || n_chunks > room - 1 {
        return Err(IndexError::AllocationFault);
    }

    let ghost old_records = store.spec_records();
    let mut prev = ItemPointer::null();
    let mut remaining = total;
    let ghost mut chunks_done: int = 0;

    while remaining > 0
        invariant
            store.wf(),
            store.spec_max_slots() == old(store).spec_max_slots(),
            fit >= 1,
            tensor.wf(),
            total == tensor.spec_elements().len(),
            n_chunks == spec_chunk_count(total as int, fit as int),
            old_records == old(store).spec_records(),
            old_records.len() + n_chunks + 1 <= store.spec_max_slots(),
            0 <= chunks_done <= n_chunks,
            remaining <= total,
            remaining > 0 ==> remaining == total - chunks_done * fit,
            remaining == 0 ==> chunks_done == n_chunks,
            store.spec_records().len() == old_records.len() + chunks_done,
            store.spec_records().take(old_records.len() as int) == old_records,
            chunks_done == 0 ==> prev.spec_is_null(),
            chunks_done > 0 ==> prev == spec_ptr_of_slot(old_records.len() + chunks_done - 1),
            forall|j: int|
                0 <= j < chunks_done ==> #[trigger] spec_chunk_at(
                    store.spec_records(),
                    old_records.len() as int,
                    tensor.spec_elements(),
                    fit as int,
                    j,
                ),
            spec_chain_elements(store.spec_records(), prev, chunks_done as nat) == Some(
                tensor.spec_elements().skip(remaining as int),
            ),
        decreases remaining,
    {
        proof {
            lemma_chunk_index_below(chunks_done, fit as int, total as int);
        }
        let chunk_start = if remaining > fit {
            remaining - fit
        } else {
            0
        };
        let chunk = PqQuantizerVector {
            vec: copy_range(&tensor.elements, chunk_start, remaining),
            next_vector_pointer: prev,
        };
        let ghost pre_records = store.spec_records();
        let ghost pre_prev = prev;
        match chunk.write(store) {
            Ok(p) => {
                proof {
                    lemma_chain_elements_prefix(
                        pre_records,
                        store.spec_records(),
                        pre_prev,
                        chunks_done as nat,
                    );
                    assert(tensor.spec_elements().subrange(chunk_start as int, remaining as int)
                        + tensor.spec_elements().skip(remaining as int) =~= tensor.spec_elements().skip(
                        chunk_start as int,
                    ));
                    if chunk_start > 0 {
                        assert(chunks_done * fit + fit == (chunks_done + 1) * fit)
                            by (nonlinear_arith);
                        lemma_chunk_index_below(chunks_done + 1, fit as int, total as int);
                    } else {
                        assert(chunks_done * fit + fit == (chunks_done + 1) * fit)
                            by (nonlinear_arith);
                        lemma_chunk_index_final(chunks_done, fit as int, total as int);
                    }
                    assert(store.spec_records().take(old_records.len() as int) =~= old_records);
                    lemma_ptr_of_slot_roundtrip(pre_records.len() as int);
                    assert(spec_slot_of(p) == pre_records.len());
                    assert(chunk_start == spec_chunk_lo(total as int, fit as int, chunks_done));
                    assert(spec_chunk_at(
                        store.spec_records(),
                        old_records.len() as int,
                        tensor.spec_elements(),
                        fit as int,
                        chunks_done,
                    ));
                    assert forall|j: int| 0 <= j < chunks_done implies #[trigger] spec_chunk_at(
                        store.spec_records(),
                        old_records.len() as int,
                        tensor.spec_elements(),
                        fit as int,
                        j,
                    ) by {
                        assert(spec_chunk_at(
                            pre_records,
                            old_records.len() as int,
                            tensor.spec_elements(),
                            fit as int,
                            j,
                        ));
                        assert(store.spec_records()[old_records.len() + j] == store.spec_records()
                            .take(pre_records.len() as int)[old_records.len() + j]);
                    }
                }
                prev = p;
                remaining = chunk_start;
                proof {
                    chunks_done = chunks_done + 1;
                }
            },
            Err(e) => {
                proof {
                    assert(false);
                }
                return Err(e);
            },
        }
    }

    let def = PqQuantizerDef {
        dim_0: tensor.dim_0,
        dim_1: tensor.dim_1,
        dim_2: tensor.dim_2,
        vec_len: total,
        next_vector_pointer: prev,
    };
    let ghost pre_records = store.spec_records();
    match def.write(store) {
        Ok(p) => {
            proof {
                assert(store.spec_records().take(pre_records.len() as int) =~= pre_records);
                lemma_chain_elements_prefix(
                    pre_records,
                    store.spec_records(),
                    prev,
                    n_chunks as nat,
                );
                assert(tensor.spec_elements().skip(0) =~= tensor.spec_elements());
                assert(store.spec_records().take(old_records.len() as int) =~= old_records);
                lemma_ptr_of_slot_roundtrip(pre_records.len() as int);
                assert forall|j: int| 0 <= j < n_chunks implies #[trigger] spec_chunk_at(
                    store.spec_records(),
                    old_records.len() as int,
                    tensor.spec_elements(),
                    fit as int,
                    j,
                ) by {
                    assert(spec_chunk_at(
                        pre_records,
                        old_records.len() as int,
                        tensor.spec_elements(),
                        fit as int,
                        j,
                    ));
                    assert(store.spec_records()[old_records.len() + j] == pre_records[old_records.len()
                        + j]);
                }
                assert(store.spec_records()[old_records.len() + n_chunks as int]
                    == Record::QuantizerDef(def));
                assert(spec_encoded_layout(
                    store.spec_records(),
                    old_records.len() as int,
                    tensor.spec_dim_0(),
                    tensor.spec_dim_1(),
                    tensor.spec_dim_2(),
                    tensor.spec_elements(),
                    fit as int,
                ));
            }
            Ok(p)
        },
        Err(e) => {
            proof {
                assert(false);
            }
            Err(e)
        },
    }
}

/// Deserializes a stored quantizer: reads the header behind the pointer,
/// chases the chunk chain from the header's stored head until the null
/// sentinel, and reassembles the flattened tensor.  The traversal follows no
/// more hops than the declared element count demands, so a corrupted chain
/// without a terminator is reported as a corruption fault, never followed
/// without bound; a size or shape mismatch is likewise a corruption fault.
#[verifier::loop_isolation(false)]
pub fn read_pq(store: &PageStore, index_pointer: ItemPointer, page_capacity_elems: usize) -> (r:
    Result<CentroidTensor, IndexError>)
    requires
        store.wf(),
    ensures
        page_capacity_elems <= RESERVED_CHUNK_OVERHEAD ==> r == Err::<CentroidTensor, IndexError>(
            IndexError::CapacityFault,
        ),
        page_capacity_elems > RESERVED_CHUNK_OVERHEAD ==> match spec_decode_quantizer(
            store.spec_records(),
            index_pointer,
            (page_capacity_elems - RESERVED_CHUNK_OVERHEAD) as int,
        ) {
            Some(pair) => match r {
                Ok(t) => {
                    &&& t.wf()
                    &&& t.spec_dim_0() == pair.0.dim_0
                    &&& t.spec_dim_1() == pair.0.dim_1
                    &&& t.spec_dim_2() == pair.0.dim_2
                    &&& t.spec_elements() == pair.1
                },
                Err(_) => false,
            },
            None => r == Err::<CentroidTensor, IndexError>(IndexError::CorruptionFault),
        },
{
    let fit = match chunk_capacity(page_capacity_elems) {
        Ok(f) => f,
        Err(e) => {
            return Err(e);
        },
    };
    let def = match PqQuantizerDef::read(store, index_pointer) {
        Ok(d) => d,
        Err(e) => {
            return Err(e);
        },
    };
    if !shape_product_matches(def.dim_0, def.dim_1, def.dim_2, def.vec_len) {
        return Err(IndexError::CorruptionFault);
    }
    let total = def.vec_len;
    let bound: usize = if total == 0 {
        0
    } else {
        (total - 1) / fit + 1
    };
    assert(bound == spec_chunk_count(total as int, fit as int));
    let ghost head = def.next_vector_pointer;

    let mut result: Vec<u32> = Vec::new();
    let mut next = def.next_vector_pointer;
    let mut hops: usize = 0;
    while !next.is_null()
        invariant
            store.wf(),
            fit >= 1,
            hops <= bound,
            spec_chain_elements(store.spec_records(), head, bound as nat) == (
            match spec_chain_elements(store.spec_records(), next, (bound - hops) as nat) {
                Some(rest) => Some(result@ + rest),
                None => None::<Seq<u32>>,
            }),
        decreases bound - hops,
    {
        if hops == bound {
            return Err(IndexError::CorruptionFault);
        }
        let chunk = match PqQuantizerVector::read(store, next) {
            Ok(v) => v,
            Err(e) => {
                return Err(e);
            },
        };
        let mut copied = copy_vec(&chunk.vec);
        let nxt = chunk.next_vector_pointer;
        proof {
            match spec_chain_elements(store.spec_records(), nxt, (bound - hops - 1) as nat) {
                Some(rest2) => {
                    assert(result@ + (chunk.vec@ + rest2) =~= (result@ + chunk.vec@) + rest2);
                },
                None => {},
            }
        }
        result.append(&mut copied);
        next = nxt;
        hops = hops + 1;
    }
    proof {
        assert(result@ + Seq::<u32>::empty() =~= result@);
    }
    if result.len() != total {
        return Err(IndexError::CorruptionFault);
    }
    match CentroidTensor::from_flat(def.dim_0, def.dim_1, def.dim_2, result) {
        Ok(t) => Ok(t),
        Err(e) => {
            proof {
                assert(false);
            }
            Err(e)
        },
    }
}

} // verus!
