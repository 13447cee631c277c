use vstd::prelude::*;

verus! {

/// Faults that abort an index build.  All of them are unrecoverable for the
/// current build and bubble up uncaught to the caller that owns it.
#[derive(Clone, Copy, PartialEq, Eq, Structural, Debug)]
pub enum IndexError {
    /// A pointer resolved to data that fails structural validation: a
    /// dangling pointer, a record of the wrong kind, a size mismatch, or a
    /// page chain without a terminator within the expected hop budget.
    CorruptionFault,
    /// A payload was offered to a page whose capacity cannot even hold the
    /// reserved pointer and bookkeeping fields plus one element.
    CapacityFault,
    /// The page store refused to allocate a new page (out of space).
    AllocationFault,
}

} // verus!
