//! Positions and the board that holds their history.

pub mod attacks;
pub mod draw;
pub mod fen_laws;
pub mod fen_load;
pub mod fen_read;
pub mod fen_text;
pub mod fen_write;
pub mod generate;
pub mod laws;
pub mod legal;
pub mod make;
pub mod move_text;
pub mod position;
pub mod sound;
pub mod stack;
