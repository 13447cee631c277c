use vstd::prelude::*;

verus! {

/// A page-relative pointer: identifies one stored record by page number and
/// 1-based slot offset within that page.  The pair (0, 0) doubles as the
/// sentinel "no pointer" value that terminates linked page chains, so a
/// record is never stored at offset 0.
#[derive(Clone, Copy, PartialEq, Eq, Structural, Debug, Hash)]
pub struct ItemPointer {
    pub block_number: u32,
    pub offset: u32,
}

/// An index pointer is the same addressing unit; the alias keeps call sites
/// that speak about the index side readable.
pub type IndexPointer = ItemPointer;

/// A heap pointer is the same addressing unit aimed at the raw-vector heap.
pub type HeapPointer = ItemPointer;

impl ItemPointer {
    /// True of the zero/zero sentinel that marks "no next / no pointer".
    pub open spec fn spec_is_null(self) -> bool {
        self.block_number == 0 && self.offset == 0
    }

    pub fn new(block_number: u32, offset: u32) -> (r: ItemPointer)
        ensures
            r.block_number == block_number,
            r.offset == offset,
    {
        ItemPointer { block_number, offset }
    }

    /// The zero/zero sentinel value.
    pub fn null() -> (r: ItemPointer)
        ensures
            r.spec_is_null(),
    {
        ItemPointer { block_number: 0, offset: 0 }
    }

    pub fn is_null(&self) -> (r: bool)
        ensures
            r == self.spec_is_null(),
    {
        self.block_number == 0 && self.offset == 0
    }
}

} // verus!
