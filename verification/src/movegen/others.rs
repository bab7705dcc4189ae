//! Knight and king attacks: fixed jumps, cut off at the board's edge.

use vstd::prelude::*;
use crate::bits::{bit, sq_bit};
use crate::types::bitboard::Bitboard;
use crate::types::square::Square;

verus! {

/// Every square but those of the a-file.
pub const NOT_FILE_A: u64 = 0xfefe_fefe_fefe_fefe;

/// Every square but those of the a- and b-files.
pub const NOT_FILE_AB: u64 = 0xfcfc_fcfc_fcfc_fcfc;

/// Every square but those of the h-file.
pub const NOT_FILE_H: u64 = 0x7f7f_7f7f_7f7f_7f7f;

/// Every square but those of the g- and h-files.
pub const NOT_FILE_GH: u64 = 0x3f3f_3f3f_3f3f_3f3f;

/// Whether a knight jumps from `a` to `b`: two steps along one axis and one
/// along the other.
pub open spec fn knight_jump(a: u8, b: u8) -> bool {
    let dr = b / 8 - a / 8;
    let df = b % 8 - a % 8;
    a < 64 && b < 64 && ((dr == 1 || dr == -1) && (df == 2 || df == -2) || (dr == 2 || dr == -2)
        && (df == 1 || df == -1))
}

/// Whether a king steps from `a` to `b`: a different square at most one rank
/// and one file away.
pub open spec fn king_step(a: u8, b: u8) -> bool {
    let dr = b / 8 - a / 8;
    let df = b % 8 - a % 8;
    a < 64 && b < 64 && a != b && -1 <= dr <= 1 && -1 <= df <= 1
}

/// The squares a knight on `sq` attacks, by shifting its square in the eight
/// directions and dropping what wrapped round an edge.
pub open spec fn knight_mask(sq: u8) -> u64 {
    let b = sq_bit(sq);
    ((b << 17) & NOT_FILE_A) | ((b << 10) & NOT_FILE_AB) | ((b >> 6) & NOT_FILE_AB) | ((b >> 15)
        & NOT_FILE_A) | ((b << 15) & NOT_FILE_H) | ((b << 6) & NOT_FILE_GH) | ((b >> 10)
        & NOT_FILE_GH) | ((b >> 17) & NOT_FILE_H)
}

/// The squares a king on `sq` attacks.
pub open spec fn king_mask(sq: u8) -> u64 {
    let b = sq_bit(sq);
    (b << 8) | (b >> 8) | ((b << 1) & NOT_FILE_A) | ((b >> 1) & NOT_FILE_H) | ((b << 9)
        & NOT_FILE_A) | ((b << 7) & NOT_FILE_H) | ((b >> 7) & NOT_FILE_A) | ((b >> 9) & NOT_FILE_H)
}

/// The knight's attack set holds exactly the squares a knight jumps to.
pub proof fn lemma_knight_mask(sq: u8, j: u8)
    requires
        sq < 64,
        j < 64,
    ensures
        bit(knight_mask(sq), j) == knight_jump(sq, j),
{
    let a = sq as u64;
    let i = j as u64;
    assert(((((((1u64 << a) << 17) & 0xfefe_fefe_fefe_fefe) | (((1u64 << a) << 10)
        & 0xfcfc_fcfc_fcfc_fcfc) | (((1u64 << a) >> 6) & 0xfcfc_fcfc_fcfc_fcfc) | (((1u64 << a)
        >> 15) & 0xfefe_fefe_fefe_fefe) | (((1u64 << a) << 15) & 0x7f7f_7f7f_7f7f_7f7f) | (((1u64
        << a) << 6) & 0x3f3f_3f3f_3f3f_3f3f) | (((1u64 << a) >> 10) & 0x3f3f_3f3f_3f3f_3f3f) | (((
    1u64 << a) >> 17) & 0x7f7f_7f7f_7f7f_7f7f)) >> i) & 1 == 1) == ({
        let r1 = i / 8;
        let r0 = a / 8;
        let f1 = i % 8;
        let f0 = a % 8;
        (r1 == r0 + 1 || r1 + 1 == r0) && (f1 == f0 + 2 || f1 + 2 == f0) || (r1 == r0 + 2 || r1
            + 2 == r0) && (f1 == f0 + 1 || f1 + 1 == f0)
    })) by (bit_vector)
        requires
            a < 64,
            i < 64,
    ;
}

/// The king's attack set holds exactly the squares a king steps to.
pub proof fn lemma_king_mask(sq: u8, j: u8)
    requires
        sq < 64,
        j < 64,
    ensures
        bit(king_mask(sq), j) == king_step(sq, j),
{
    let a = sq as u64;
    let i = j as u64;
    assert((((((1u64 << a) << 8) | ((1u64 << a) >> 8) | (((1u64 << a) << 1)
        & 0xfefe_fefe_fefe_fefe) | (((1u64 << a) >> 1) & 0x7f7f_7f7f_7f7f_7f7f) | (((1u64 << a)
        << 9) & 0xfefe_fefe_fefe_fefe) | (((1u64 << a) << 7) & 0x7f7f_7f7f_7f7f_7f7f) | (((1u64
        << a) >> 7) & 0xfefe_fefe_fefe_fefe) | (((1u64 << a) >> 9) & 0x7f7f_7f7f_7f7f_7f7f)) >> i)
        & 1 == 1) == ({
        let r1 = i / 8;
        let r0 = a / 8;
        let f1 = i % 8;
        let f0 = a % 8;
        i != a && (r1 == r0 || r1 == r0 + 1 || r1 + 1 == r0) && (f1 == f0 || f1 == f0 + 1 || f1
            + 1 == f0)
    })) by (bit_vector)
        requires
            a < 64,
            i < 64,
    ;
}

/// The squares a knight on `sq` attacks.
pub fn get_knight_attacks(sq: Square) -> (b: Bitboard)
    requires
        sq.on_board(),
    ensures
        b.0 == knight_mask(sq.0),
        forall|j: u8| j < 64 ==> (#[trigger] bit(b.0, j) <==> knight_jump(sq.0, j)),
{
    proof {
        assert forall|j: u8| j < 64 implies (#[trigger] bit(knight_mask(sq.0), j) <==> knight_jump(
            sq.0,
            j,
        )) by {
            lemma_knight_mask(sq.0, j);
        }
    }
    let b = 1u64 << (sq.0 as u64);
    Bitboard(
        ((b << 17) & NOT_FILE_A) | ((b << 10) & NOT_FILE_AB) | ((b >> 6) & NOT_FILE_AB) | ((b
            >> 15) & NOT_FILE_A) | ((b << 15) & NOT_FILE_H) | ((b << 6) & NOT_FILE_GH) | ((b >> 10)
            & NOT_FILE_GH) | ((b >> 17) & NOT_FILE_H),
    )
}

/// The squares a king on `sq` attacks.
pub fn get_king_attacks(sq: Square) -> (b: Bitboard)
    requires
        sq.on_board(),
    ensures
        b.0 == king_mask(sq.0),
        forall|j: u8| j < 64 ==> (#[trigger] bit(b.0, j) <==> king_step(sq.0, j)),
{
    proof {
        assert forall|j: u8| j < 64 implies (#[trigger] bit(king_mask(sq.0), j) <==> king_step(
            sq.0,
            j,
        )) by {
            lemma_king_mask(sq.0, j);
        }
    }
    let b = 1u64 << (sq.0 as u64);
    Bitboard(
        (b << 8) | (b >> 8) | ((b << 1) & NOT_FILE_A) | ((b >> 1) & NOT_FILE_H) | ((b << 9)
            & NOT_FILE_A) | ((b << 7) & NOT_FILE_H) | ((b >> 7) & NOT_FILE_A) | ((b >> 9)
            & NOT_FILE_H),
    )
}

} // verus!
