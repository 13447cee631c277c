use crate::error::IndexError;
use crate::model::Node;
use crate::pointer::ItemPointer;
use crate::pq_quantizer_storage::{PqQuantizerDef, PqQuantizerVector};
use vstd::arithmetic::div_mod::lemma_fundamental_div_mod;
use vstd::pervasive::VecAdditionalExecFns;
use vstd::prelude::*;

verus! {

/// How many record slots one page carries.
pub const RECORDS_PER_PAGE: usize = 8;

/// Upper bound on the number of slots any store may be configured with; it
/// keeps every page number well inside the pointer's page field.
pub const MAX_SLOTS_LIMIT: usize = 0x1000_0000;

/// One persisted record.  The kind tag stands in for the logical page type
/// of the page the record lives on; a reader that finds the wrong kind
/// behind a pointer reports a corruption fault.
pub enum Record {
    Node(Node),
    QuantizerDef(PqQuantizerDef),
    QuantizerVector(PqQuantizerVector),
}

/// The slot index a pointer addresses: pages are numbered from 0 and each
/// carries `RECORDS_PER_PAGE` slots at offsets 1 through `RECORDS_PER_PAGE`.
pub open spec fn spec_slot_of(p: ItemPointer) -> int {
    p.block_number * RECORDS_PER_PAGE + p.offset - 1
}

/// Whether a pointer's offset lies in the valid 1-based slot range.
pub open spec fn spec_offset_in_range(p: ItemPointer) -> bool {
    1 <= p.offset <= RECORDS_PER_PAGE
}

/// The pointer that addresses a slot index.
pub open spec fn spec_ptr_of_slot(slot: int) -> ItemPointer {
    ItemPointer {
        block_number: (slot / RECORDS_PER_PAGE as int) as u32,
        offset: (slot % RECORDS_PER_PAGE as int + 1) as u32,
    }
}

/// Whether a pointer resolves to a record of a store with these contents.
pub open spec fn seq_valid_ptr(s: Seq<Record>, p: ItemPointer) -> bool {
    spec_offset_in_range(p) && spec_slot_of(p) < s.len()
}

/// The record a pointer resolves to.
pub open spec fn seq_record_at(s: Seq<Record>, p: ItemPointer) -> Record
    recommends
        seq_valid_ptr(s, p),
{
    s[spec_slot_of(p)]
}

/// Addressing a slot and reading the resulting pointer's slot back is the
/// identity, and such a pointer is never the null sentinel.
pub proof fn lemma_ptr_of_slot_roundtrip(slot: int)
    requires
        0 <= slot < MAX_SLOTS_LIMIT,
    ensures
        spec_offset_in_range(spec_ptr_of_slot(slot)),
        spec_slot_of(spec_ptr_of_slot(slot)) == slot,
        !spec_ptr_of_slot(slot).spec_is_null(),
{
    lemma_fundamental_div_mod(slot, RECORDS_PER_PAGE as int);
}

/// Distinct pointers with in-range offsets address distinct slots.
pub proof fn lemma_slot_injective(p: ItemPointer, q: ItemPointer)
    requires
        spec_offset_in_range(p),
        spec_offset_in_range(q),
        p != q,
    ensures
        spec_slot_of(p) != spec_slot_of(q),
{
    if p.block_number != q.block_number {
        assert(spec_slot_of(p) != spec_slot_of(q));
    }
}

/// The paged store, reduced to what this crate relies on of the host's
/// page/buffer layer: an append log of records addressed by stable pointers,
/// with random-access reads and in-place overwrite of committed records.
/// `max_slots` models the space the store was given; appending beyond it is
/// the allocation fault.
pub struct PageStore {
    records: Vec<Record>,
    max_slots: usize,
}

impl PageStore {
    /// Everything the store holds, in slot order.
    pub closed spec fn spec_records(&self) -> Seq<Record> {
        self.records@
    }

    /// The slot budget the store was created with.
    pub closed spec fn spec_max_slots(&self) -> int {
        self.max_slots as int
    }

    pub open spec fn wf(&self) -> bool {
        self.spec_records().len() <= self.spec_max_slots() <= MAX_SLOTS_LIMIT
    }

    pub open spec fn spec_valid_ptr(&self, p: ItemPointer) -> bool {
        seq_valid_ptr(self.spec_records(), p)
    }

    pub open spec fn spec_record_at(&self, p: ItemPointer) -> Record
        recommends
            self.spec_valid_ptr(p),
    {
        seq_record_at(self.spec_records(), p)
    }

    /// An empty store with room for `max_slots` records.
    pub fn new(max_slots: usize) -> (r: PageStore)
        requires
            max_slots <= MAX_SLOTS_LIMIT,
        ensures
            r.wf(),
            r.spec_records().len() == 0,
            r.spec_max_slots() == max_slots,
    {
        PageStore { records: Vec::new(), max_slots }
    }

    pub fn num_records(&self) -> (r: usize)
        ensures
            r == self.spec_records().len(),
    {
        self.records.len()
    }

    pub fn max_slots(&self) -> (r: usize)
        ensures
            r == self.spec_max_slots(),
    {
        self.max_slots
    }

    /// Appends a record onto the log, allocating the next slot, and returns
    /// the pointer that will retrieve it.  Fails with the allocation fault
    /// exactly when the slot budget is exhausted, leaving the store as it
    /// was.
    pub fn append(&mut self, record: Record) -> (r: Result<ItemPointer, IndexError>)
        requires
            old(self).wf(),
        ensures
            final(self).wf(),
            final(self).spec_max_slots() == old(self).spec_max_slots(),
            r is Ok <==> old(self).spec_records().len() < old(self).spec_max_slots(),
            match r {
                Ok(p) => {
                    &&& final(self).spec_records() == old(self).spec_records().push(record)
                    &&& p == spec_ptr_of_slot(old(self).spec_records().len() as int)
                    &&& spec_offset_in_range(p)
                    &&& spec_slot_of(p) == old(self).spec_records().len()
                    &&& !p.spec_is_null()
                },
                Err(e) => {
                    &&& e == IndexError::AllocationFault
                    &&& *final(self) == *old(self)
                },
            },
    {
        let slot = self.records.len();
        if slot < self.max_slots {
            proof {
                lemma_ptr_of_slot_roundtrip(slot as int);
            }
            let block: u32 = (slot / RECORDS_PER_PAGE) as u32;
            let offset: u32 = (slot % RECORDS_PER_PAGE) as u32 + 1;
            self.records.push(record);
            Ok(ItemPointer::new(block, offset))
        } else {
            Err(IndexError::AllocationFault)
        }
    }

    /// Random-access read: resolves a pointer to the record it addresses, or
    /// `None` when the pointer dangles.
    pub fn read_record(&self, p: ItemPointer) -> (r: Option<&Record>)
        requires
            self.wf(),
        ensures
            match r {
                Some(rec) => self.spec_valid_ptr(p) && *rec == self.spec_record_at(p),
                None => !self.spec_valid_ptr(p),
            },
    {
        if p.offset < 1 || p.offset as usize > RECORDS_PER_PAGE {
            return None;
        }
        let slot64: u64 = (p.block_number as u64) * 8 + (p.offset as u64) - 1;
        assert(slot64 == spec_slot_of(p));
        if slot64 >= self.records.len() as u64 {
            return None;
        }
        let slot = slot64 as usize;
        Some(&self.records[slot])
    }

    /// Replaces the record a pointer addresses, in place.  Fails with the
    /// corruption fault exactly when the pointer dangles, leaving the store
    /// as it was.
    pub fn overwrite(&mut self, p: ItemPointer, record: Record) -> (r: Result<(), IndexError>)
        requires
            old(self).wf(),
        ensures
            final(self).wf(),
            final(self).spec_max_slots() == old(self).spec_max_slots(),
            r is Ok <==> old(self).spec_valid_ptr(p),
            match r {
                Ok(_) => final(self).spec_records() == old(self).spec_records().update(
                    spec_slot_of(p),
                    record,
                ),
                Err(e) => {
                    &&& e == IndexError::CorruptionFault
                    &&& *final(self) == *old(self)
                },
            },
    {
        if p.offset < 1 || p.offset as usize > RECORDS_PER_PAGE {
            return Err(IndexError::CorruptionFault);
        }
        let slot64: u64 = (p.block_number as u64) * 8 + (p.offset as u64) - 1;
        assert(slot64 == spec_slot_of(p));
        if slot64 >= self.records.len() as u64 {
            return Err(IndexError::CorruptionFault);
        }
        let slot = slot64 as usize;
        self.records.set(slot, record);
        Ok(())
    }
}

} // verus!
