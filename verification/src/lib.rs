//! A chess engine core: bitboards, move generation, position history and the
//! search tree, with every item verified.

pub mod bits;
pub mod board;
pub mod hash;
pub mod mcts;
pub mod movegen;
pub mod nets;
pub mod perft;
pub mod prng;
pub mod rays;
pub mod search;
pub mod tunable;
pub mod types;
pub mod uci;
