//! Node layout, neighbor lists and product-quantizer storage of a graph-based
//! vector index, with their contracts proved by Verus.

pub mod item_pointer;
pub mod neighbor;
pub mod node;
pub mod pq;
pub mod shape;
pub mod storage_common;
