//! Bitboards: sets of squares held in one 64-bit word.

use vstd::prelude::*;
use vstd::std_specs::bits::*;
use crate::bits::{
    bit, clear_lsb, lemma_bit_ops, lemma_clear_lsb_bit, lemma_lsb, lemma_popcount_bound,
    lemma_popcount_clear_lsb, lemma_sq_bit, lsb, popcount, sq_bit,
};
use crate::types::square::Square;

verus! {

/// The a-file.
pub const FILEMASK: u64 = 0x0101_0101_0101_0101;

/// The first rank.
pub const RANKMASK: u64 = 0xff;

/// A set of squares: bit `i` is set when square `i` is a member.
#[derive(Debug, Copy, Clone, PartialEq, Eq, Structural)]
pub struct Bitboard(pub u64);

impl Bitboard {
    /// Whether `sq` is a member.
    pub open spec fn contains(self, sq: u8) -> bool {
        bit(self.0, sq)
    }

    /// The number of members.
    pub open spec fn count(self) -> nat {
        popcount(self.0)
    }

    /// The empty set.
    pub fn empty() -> (b: Bitboard)
        ensures
            b.0 == 0,
    {
        Bitboard(0)
    }

    /// The set that holds `sq` alone.
    pub fn from_square(sq: Square) -> (b: Bitboard)
        requires
            sq.on_board(),
        ensures
            b.0 == sq_bit(sq.0),
            forall|i: u8| i < 64 ==> (#[trigger] bit(b.0, i) <==> i == sq.0),
    {
        proof {
            assert forall|i: u8| i < 64 implies (#[trigger] bit(sq_bit(sq.0), i) <==> i == sq.0) by {
                lemma_sq_bit(sq.0, i);
            }
        }
        Bitboard(1u64 << (sq.0 as u64))
    }

    /// The eight squares of a rank.
    pub fn from_rank(rank: u8) -> (b: Bitboard)
        requires
            rank < 8,
        ensures
            b.0 == rank_mask(rank),
            forall|i: u8| i < 64 ==> (#[trigger] bit(b.0, i) <==> i / 8 == rank),
    {
        proof {
            assert forall|i: u8| i < 64 implies (#[trigger] bit(rank_mask(rank), i) <==> i / 8
                == rank) by {
                lemma_rank_mask(rank, i);
            }
        }
        Bitboard(RANKMASK << ((8 * rank) as u64))
    }

    /// The eight squares of a file.
    pub fn from_file(file: u8) -> (b: Bitboard)
        requires
            file < 8,
        ensures
            b.0 == file_mask(file),
            forall|i: u8| i < 64 ==> (#[trigger] bit(b.0, i) <==> i % 8 == file),
    {
        proof {
            assert forall|i: u8| i < 64 implies (#[trigger] bit(file_mask(file), i) <==> i % 8
                == file) by {
                lemma_file_mask(file, i);
            }
        }
        Bitboard(FILEMASK << (file as u64))
    }

    /// The lowest member, or 64 for the empty set.
    pub fn lsb(&self) -> (i: u8)
        ensures
            i == lsb(self.0),
            i <= 64,
            (i == 64) == (self.0 == 0),
            self.0 != 0 ==> bit(self.0, i) && forall|j: u8| j < i ==> !#[trigger] bit(self.0, j),
    {
        proof {
            axiom_u64_trailing_zeros(self.0);
            if self.0 != 0 {
                lemma_lsb(self.0);
            }
        }
        self.0.trailing_zeros() as u8
    }

    /// The highest member, or 64 for the empty set.
    pub fn msb(&self) -> (i: u8)
        ensures
            i <= 64,
            (i == 64) == (self.0 == 0),
            self.0 != 0 ==> bit(self.0, i) && forall|j: u8| i < j < 64 ==> !#[trigger] bit(self.0, j),
    {
        proof {
            axiom_u64_leading_zeros(self.0);
        }
        if self.0 == 0 {
            return 64;
        }
        let lz = self.0.leading_zeros();
        let i = (63 - lz) as u8;
        proof {
            let x = self.0;
            let k = i as u64;
            assert((x >> k) & 1 != 0);
            assert((x >> k) & 1 == 1) by (bit_vector)
                requires
                    (x >> k) & 1 != 0,
            ;
            assert forall|j: u8| i < j < 64 implies !#[trigger] bit(x, j) by {
                let m = j as u64;
                assert((x >> m) & 1 == 0);
            }
        }
        i
    }

    /// Removes the lowest member and returns it; an empty set stays empty and
    /// gives 64.
    pub fn pop_lsb(&mut self) -> (i: u8)
        ensures
            i == lsb(old(self).0),
            (i == 64) == (old(self).0 == 0),
            old(self).0 != 0 ==> bit(old(self).0, i),
            old(self).0 != 0 ==> final(self).0 == clear_lsb(old(self).0),
            old(self).0 == 0 ==> final(self).0 == 0,
            forall|j: u8| #[trigger] bit(final(self).0, j) <==> bit(old(self).0, j) && j != i,
    {
        let x = self.0;
        proof {
            axiom_u64_trailing_zeros(x);
            if x != 0 {
                lemma_lsb(x);
            }
            let y: u64 = if x != 0 { clear_lsb(x) } else { 0 };
            assert forall|j: u8| #[trigger] bit(y, j) <==> bit(x, j) && j != lsb(x) by {
                if j < 64 {
                    if x != 0 {
                        lemma_clear_lsb_bit(x, j);
                    } else {
                        lemma_bit_ops(0, 0, j);
                    }
                }
            }
        }
        let i = x.trailing_zeros() as u8;
        if x != 0 {
            self.0 = x & (x - 1);
        }
        i
    }

    /// The number of members.
    pub fn popcount(&self) -> (n: u32)
        ensures
            n == self.count(),
            n <= 64,
    {
        proof {
            lemma_popcount_bound(self.0);
        }
        self.0.count_ones()
    }

    /// Whether the set has no member.
    pub fn is_empty(&self) -> (b: bool)
        ensures
            b == (self.0 == 0),
            b == (self.count() == 0),
    {
        proof {
            lemma_popcount_zero(self.0);
        }
        self.0 == 0
    }

    /// Whether the set has a member.
    pub fn is_not_empty(&self) -> (b: bool)
        ensures
            b == (self.0 != 0),
            b == (self.count() > 0),
    {
        proof {
            lemma_popcount_zero(self.0);
        }
        self.0 != 0
    }

    /// Whether the set has a member.
    pub fn has_bits(&self) -> (b: bool)
        ensures
            b == (self.0 != 0),
            b == (self.count() > 0),
    {
        proof {
            lemma_popcount_zero(self.0);
        }
        self.0 != 0
    }

    /// The underlying word.
    pub fn as_u64(&self) -> (x: u64)
        ensures
            x == self.0,
    {
        self.0
    }

    /// Whether the set has two members or more.
    pub fn contains_multiple(self) -> (b: bool)
        ensures
            b == (self.count() >= 2),
    {
        let x = self.0;
        proof {
            lemma_popcount_zero(x);
            if x != 0 {
                lemma_popcount_clear_lsb(x);
                lemma_popcount_zero(clear_lsb(x));
            }
        }
        if x == 0 {
            false
        } else {
            (x & (x - 1)) != 0
        }
    }

    /// Whether the set has exactly one member.
    pub fn contains_one(self) -> (b: bool)
        ensures
            b == (self.count() == 1),
    {
        !self.is_empty() && !self.contains_multiple()
    }
}

/// The squares of rank `rank` as a word.
pub open spec fn rank_mask(rank: u8) -> u64 {
    RANKMASK << ((8 * rank) as u64)
}

/// The squares of file `file` as a word.
pub open spec fn file_mask(file: u8) -> u64 {
    FILEMASK << (file as u64)
}

/// A rank mask holds exactly the squares of its rank.
pub proof fn lemma_rank_mask(rank: u8, i: u8)
    requires
        rank < 8,
        i < 64,
    ensures
        bit(rank_mask(rank), i) == (i / 8 == rank),
{
    let r = rank as u64;
    let j = i as u64;
    let s = (8 * rank) as u64;
    assert((((0xffu64 << s) >> j) & 1 == 1) == (j / 8 == r)) by (bit_vector)
        requires
            r < 8,
            j < 64,
            s == 8 * r,
    ;
}

/// A file mask holds exactly the squares of its file.
pub proof fn lemma_file_mask(file: u8, i: u8)
    requires
        file < 8,
        i < 64,
    ensures
        bit(file_mask(file), i) == (i % 8 == file),
{
    let f = file as u64;
    let j = i as u64;
    assert((((0x0101_0101_0101_0101u64 << f) >> j) & 1 == 1) == (j % 8 == f)) by (bit_vector)
        requires
            f < 8,
            j < 64,
    ;
}

/// Only the empty set has no member.
pub proof fn lemma_popcount_zero(x: u64)
    ensures
        (popcount(x) == 0) == (x == 0),
    decreases x,
{
    if x != 0 {
        if x % 2 == 0 {
            lemma_popcount_zero(x / 2);
        }
    }
}

} // verus!
