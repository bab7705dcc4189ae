//! Attack sets of the single pieces.

pub mod others;
pub mod pawns;
pub mod slideys;
