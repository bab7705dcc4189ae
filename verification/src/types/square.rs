//! Squares of the board, numbered from a1 = 0 to h8 = 63.

use vstd::prelude::*;

verus! {

/// The index that stands for "no square".
pub const NO_SQUARE: u8 = 64;

/// A square index. Values below 64 name a square, with `rank * 8 + file`;
/// 64 stands for "no square".
#[derive(Debug, Copy, Clone, PartialEq, Eq, Structural)]
pub struct Square(pub u8);

impl Square {
    /// Whether this value names one of the 64 squares.
    pub open spec fn on_board(self) -> bool {
        self.0 < 64
    }

    /// The value that stands for "no square".
    pub fn invalid() -> (s: Square)
        ensures
            s.0 == NO_SQUARE,
    {
        Square(NO_SQUARE)
    }

    /// Mirrors the square top to bottom: the file stays, rank `r` becomes `7 - r`.
    pub fn flip(&mut self)
        ensures
            final(self).0 == old(self).0 ^ 56,
            old(self).on_board() ==> final(self).0 == (7 - old(self).0 / 8) * 8 + old(self).0 % 8,
    {
        let v = self.0;
        assert(v < 64 ==> v ^ 56 == (7 - v / 8) * 8 + v % 8) by (bit_vector);
        self.0 = v ^ 56;
    }

    /// Mirrors the square left to right: the rank stays, file `f` becomes `7 - f`.
    pub fn flip_file(&mut self)
        ensures
            final(self).0 == old(self).0 ^ 7,
            old(self).on_board() ==> final(self).0 == (old(self).0 / 8) * 8 + (7 - old(self).0 % 8),
    {
        let v = self.0;
        assert(v < 64 ==> v ^ 7 == (v / 8) * 8 + (7 - v % 8)) by (bit_vector);
        self.0 = v ^ 7;
    }

    /// Rank of the square, 0 for the first rank.
    pub fn rank(&self) -> (r: u8)
        ensures
            r == self.0 / 8,
    {
        self.0 / 8
    }

    /// File of the square, 0 for the a-file.
    pub fn file(&self) -> (f: u8)
        ensures
            f == self.0 % 8,
    {
        self.0 % 8
    }

    /// The index as a `usize`.
    pub fn as_usize(&self) -> (i: usize)
        ensures
            i == self.0,
    {
        self.0 as usize
    }

    /// The square on the given rank and file.
    pub fn from_rf(rank: u8, file: u8) -> (s: Square)
        requires
            rank * 8 + file <= u8::MAX,
        ensures
            s.0 == rank * 8 + file,
            rank < 8 && file < 8 ==> s.on_board() && s.0 / 8 == rank && s.0 % 8 == file,
    {
        Square(rank * 8 + file)
    }
}

} // verus!
