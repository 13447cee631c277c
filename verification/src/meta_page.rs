use crate::pointer::ItemPointer;
use crate::util::copy_vec;
use vstd::prelude::*;

verus! {

/// Index-wide configuration: the entry-point list used to start graph
/// traversals, the configured maximum fan-out, and whether node vectors are
/// stored as quantized codes.  The builder reads it throughout a build and
/// writes it exactly once, when the first node ever given neighbors is
/// registered as the initial entry point.
pub struct MetaPage {
    init_ids: Option<Vec<ItemPointer>>,
    num_neighbors: u32,
    uses_quantization: bool,
}

impl MetaPage {
    /// Entry points, or `None` before the first node is committed.
    pub closed spec fn spec_init_ids(self) -> Option<Seq<ItemPointer>> {
        match self.init_ids {
            Some(v) => Some(v@),
            None => None,
        }
    }

    /// The configured maximum fan-out.
    pub closed spec fn spec_num_neighbors(self) -> u32 {
        self.num_neighbors
    }

    pub closed spec fn spec_uses_quantization(self) -> bool {
        self.uses_quantization
    }

    /// A fresh metadata value with no entry points yet.
    pub fn new(num_neighbors: u32, uses_quantization: bool) -> (r: MetaPage)
        ensures
            r.spec_init_ids() is None,
            r.spec_num_neighbors() == num_neighbors,
            r.spec_uses_quantization() == uses_quantization,
    {
        MetaPage { init_ids: None, num_neighbors, uses_quantization }
    }

    /// A copy of the entry-point list, or `None` before the first node is
    /// committed.
    pub fn get_init_ids(&self) -> (r: Option<Vec<ItemPointer>>)
        ensures
            match r {
                Some(v) => self.spec_init_ids() == Some(v@),
                None => self.spec_init_ids() is None,
            },
    {
        match &self.init_ids {
            Some(v) => Some(copy_vec(v)),
            None => None,
        }
    }

    pub fn get_num_neighbors(&self) -> (r: u32)
        ensures
            r == self.spec_num_neighbors(),
    {
        self.num_neighbors
    }

    pub fn get_uses_quantization(&self) -> (r: bool)
        ensures
            r == self.spec_uses_quantization(),
    {
        self.uses_quantization
    }

    /// Replaces the entry-point list wholesale.
    pub fn update_init_ids(&mut self, init_ids: Vec<ItemPointer>)
        ensures
            final(self).spec_init_ids() == Some(init_ids@),
            final(self).spec_num_neighbors() == old(self).spec_num_neighbors(),
            final(self).spec_uses_quantization() == old(self).spec_uses_quantization(),
    {
        self.init_ids = Some(init_ids);
    }
}

} // verus!
