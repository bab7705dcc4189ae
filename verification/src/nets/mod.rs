//! The two networks that guide the search: one that values a position, one
//! that rates its moves.

pub mod blob;
pub mod policy;
pub mod policy_outs;
pub mod value;
