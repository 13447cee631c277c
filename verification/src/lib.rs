//! Build-time engine of an approximate-nearest-neighbor vector index.
//!
//! The crate assembles a proximity graph over vectors in memory and persists
//! it, together with a product-quantization codec, into fixed-size storage
//! pages addressed by (page, offset) pointers.  Two pieces carry the bulk of
//! the work: the incremental graph builder (in-memory adjacency map, pruning,
//! page writeback) and the paged codec-storage layer (a centroid tensor split
//! across a backward-linked chain of fixed-size pages).

pub mod builder_graph;
pub mod error;
pub mod graph;
pub mod meta_page;
pub mod model;
pub mod pointer;
pub mod pq_quantizer_storage;
pub mod store;
pub mod util;
