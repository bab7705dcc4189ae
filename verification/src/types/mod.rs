//! The small value types the whole engine is built from.

pub mod bitboard;
pub mod movelist;
pub mod moves;
pub mod piece;
pub mod square;
