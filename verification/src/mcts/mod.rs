//! The search tree: nodes, the two halves they live in, and the limits of a
//! search.

pub mod expand;
pub mod node;
pub mod reuse;
pub mod select;
pub mod time;
pub mod tree;
pub mod tree_half;
