//! Pawn moves: pushes and captures for all pawns of a side at once, and the
//! attack set of a single pawn.

use vstd::prelude::*;
use crate::bits::{bit, lemma_bit_ops, lemma_shl_bit, lemma_shr_bit, sq_bit};
use crate::movegen::others::{NOT_FILE_A, NOT_FILE_H};
use crate::types::bitboard::{lemma_rank_mask, rank_mask, Bitboard};
use crate::types::square::Square;

verus! {

/// Whether a pawn of side `color` on `a` attacks `b`: one rank forward (up
/// for white, down for black) and one file to either side.
pub open spec fn pawn_attack(a: u8, b: u8, color: u8) -> bool {
    let dr = b / 8 - a / 8;
    let df = b % 8 - a % 8;
    a < 64 && b < 64 && (df == 1 || df == -1) && (if color == 1 {
        dr == 1
    } else {
        dr == -1
    })
}

/// The squares attacked by a pawn of side `color` on `sq`.
pub open spec fn pawn_attack_mask(sq: u8, color: u8) -> u64 {
    let b = sq_bit(sq);
    if color == 1 {
        ((b << 7) & NOT_FILE_H) | ((b << 9) & NOT_FILE_A)
    } else {
        ((b >> 9) & NOT_FILE_H) | ((b >> 7) & NOT_FILE_A)
    }
}

/// The attack set of a pawn holds exactly the squares it attacks.
pub proof fn lemma_pawn_attack_mask(sq: u8, color: u8, j: u8)
    requires
        sq < 64,
        j < 64,
    ensures
        bit(pawn_attack_mask(sq, color), j) == pawn_attack(sq, j, color),
{
    let a = sq as u64;
    let i = j as u64;
    assert({
        &&& ((((((1u64 << a) << 7) & 0x7f7f_7f7f_7f7f_7f7f) | (((1u64 << a) << 9)
            & 0xfefe_fefe_fefe_fefe)) >> i) & 1 == 1) == ((i / 8 == a / 8 + 1) && (i % 8 == a % 8
            + 1 || i % 8 + 1 == a % 8))
        &&& ((((((1u64 << a) >> 9) & 0x7f7f_7f7f_7f7f_7f7f) | (((1u64 << a) >> 7)
            & 0xfefe_fefe_fefe_fefe)) >> i) & 1 == 1) == ((i / 8 + 1 == a / 8) && (i % 8 == a % 8
            + 1 || i % 8 + 1 == a % 8))
    }) by (bit_vector)
        requires
            a < 64,
            i < 64,
    ;
}

/// Where the pawns in `pawns` may go by one step: forward onto an empty
/// square. A pawn on the diagonal pin mask does not push; one on the
/// orthogonal pin mask pushes only onto that mask.
pub open spec fn single_pushes(pawns: u64, empties: u64, ctm: u8, ortho: u64, diag: u64) -> u64 {
    let free = pawns & !diag;
    if ctm == 0 {
        ((free & !ortho) >> 8) & empties | ((free & ortho) >> 8) & (empties & ortho)
    } else {
        ((free & !ortho) << 8) & empties | ((free & ortho) << 8) & (empties & ortho)
    }
}

/// Where the pawns in `pawns` may go by two steps: those single pushes that
/// end on the third rank of the side (the sixth for black), moved one more
/// step onto an empty square.
pub open spec fn double_pushes(pawns: u64, empties: u64, ctm: u8, ortho: u64, diag: u64) -> u64 {
    let single = single_pushes(pawns, empties, ctm, ortho, diag);
    if ctm == 0 {
        ((single & rank_mask(5)) >> 8) & empties
    } else {
        ((single & rank_mask(2)) << 8) & empties
    }
}

/// Where the pawns in `pawns` capture towards the a-file. A pawn on the
/// orthogonal pin mask does not capture; one on the diagonal pin mask captures
/// only onto that mask.
pub open spec fn left_attacks(pawns: u64, capturable: u64, ctm: u8, ortho: u64, diag: u64) -> u64 {
    let free = pawns & !ortho;
    if ctm == 0 {
        ((free & diag) >> 9 & capturable & diag) | ((free & !diag) >> 9 & capturable) & NOT_FILE_H
    } else {
        ((free & diag) << 7 & capturable & diag) | ((free & !diag) << 7 & capturable) & NOT_FILE_H
    }
}

/// Where the pawns in `pawns` capture towards the h-file, under the same
/// rules for pinned pawns.
pub open spec fn right_attacks(pawns: u64, capturable: u64, ctm: u8, ortho: u64, diag: u64) -> u64 {
    let free = pawns & !ortho;
    if ctm == 0 {
        ((free & diag) >> 7 & capturable & diag) | ((free & !diag) >> 7 & capturable) & NOT_FILE_A
    } else {
        ((free & diag) << 9 & capturable & diag) | ((free & !diag) << 9 & capturable) & NOT_FILE_A
    }
}

/// A single push ends on an empty square and starts one rank back, on a pawn.
pub proof fn lemma_single_push_source(
    pawns: u64,
    empties: u64,
    ctm: u8,
    ortho: u64,
    diag: u64,
    t: u8,
)
    requires
        bit(single_pushes(pawns, empties, ctm, ortho, diag), t),
    ensures
        bit(empties, t),
        ctm == 0 ==> t + 8 < 64 && bit(pawns, (t + 8) as u8),
        ctm != 0 ==> t >= 8 && bit(pawns, (t - 8) as u8),
{
    let free = pawns & !diag;
    let a = free & !ortho;
    let b = free & ortho;
    let e2 = empties & ortho;
    lemma_bit_ops(empties, ortho, t);
    if ctm == 0 {
        lemma_bit_ops((a >> 8) & empties, (b >> 8) & e2, t);
        lemma_bit_ops(a >> 8, empties, t);
        lemma_bit_ops(b >> 8, e2, t);
        lemma_shr_bit(a, 8, t);
        lemma_shr_bit(b, 8, t);
        if t + 8 < 64 {
            let s = (t + 8) as u8;
            lemma_bit_ops(free, !ortho, s);
            lemma_bit_ops(free, ortho, s);
            lemma_bit_ops(pawns, !diag, s);
        }
    } else {
        lemma_bit_ops((a << 8) & empties, (b << 8) & e2, t);
        lemma_bit_ops(a << 8, empties, t);
        lemma_bit_ops(b << 8, e2, t);
        lemma_shl_bit(a, 8, t);
        lemma_shl_bit(b, 8, t);
        if t >= 8 {
            let s = (t - 8) as u8;
            lemma_bit_ops(free, !ortho, s);
            lemma_bit_ops(free, ortho, s);
            lemma_bit_ops(pawns, !diag, s);
        }
    }
}

/// A double push ends on an empty square, passes over an empty square and
/// starts two ranks back, on a pawn.
pub proof fn lemma_double_push_source(
    pawns: u64,
    empties: u64,
    ctm: u8,
    ortho: u64,
    diag: u64,
    t: u8,
)
    requires
        bit(double_pushes(pawns, empties, ctm, ortho, diag), t),
    ensures
        bit(empties, t),
        ctm == 0 ==> t + 16 < 64 && t + 8 >= 40 && bit(pawns, (t + 16) as u8) && bit(
            empties,
            (t + 8) as u8,
        ),
        ctm != 0 ==> t >= 16 && t - 8 < 24 && bit(pawns, (t - 16) as u8) && bit(
            empties,
            (t - 8) as u8,
        ),
{
    let single = single_pushes(pawns, empties, ctm, ortho, diag);
    if ctm == 0 {
        let m = single & rank_mask(5);
        lemma_bit_ops(m >> 8, empties, t);
        lemma_shr_bit(m, 8, t);
        let mid = (t + 8) as u8;
        lemma_bit_ops(single, rank_mask(5), mid);
        lemma_rank_mask(5, mid);
        lemma_single_push_source(pawns, empties, ctm, ortho, diag, mid);
    } else {
        let m = single & rank_mask(2);
        lemma_bit_ops(m << 8, empties, t);
        lemma_shl_bit(m, 8, t);
        let mid = (t - 8) as u8;
        lemma_bit_ops(single, rank_mask(2), mid);
        lemma_rank_mask(2, mid);
        lemma_single_push_source(pawns, empties, ctm, ortho, diag, mid);
    }
}

/// A capture towards the a-file ends on a square that may be taken and
/// starts on a pawn.
pub proof fn lemma_left_attack_source(
    pawns: u64,
    capturable: u64,
    ctm: u8,
    ortho: u64,
    diag: u64,
    t: u8,
)
    requires
        bit(left_attacks(pawns, capturable, ctm, ortho, diag), t),
    ensures
        bit(capturable, t),
        ctm == 0 ==> t + 9 < 64 && bit(pawns, (t + 9) as u8),
        ctm != 0 ==> t >= 7 && bit(pawns, (t - 7) as u8),
{
    let free = pawns & !ortho;
    let a = free & diag;
    let b = free & !diag;
    if ctm == 0 {
        let x = (a >> 9) & capturable & diag;
        let y = ((b >> 9) & capturable) & NOT_FILE_H;
        lemma_bit_ops(x, y, t);
        lemma_bit_ops((a >> 9) & capturable, diag, t);
        lemma_bit_ops(a >> 9, capturable, t);
        lemma_bit_ops((b >> 9) & capturable, NOT_FILE_H, t);
        lemma_bit_ops(b >> 9, capturable, t);
        lemma_shr_bit(a, 9, t);
        lemma_shr_bit(b, 9, t);
        if t + 9 < 64 {
            let s = (t + 9) as u8;
            lemma_bit_ops(free, diag, s);
            lemma_bit_ops(free, !diag, s);
            lemma_bit_ops(pawns, !ortho, s);
        }
    } else {
        let x = (a << 7) & capturable & diag;
        let y = ((b << 7) & capturable) & NOT_FILE_H;
        lemma_bit_ops(x, y, t);
        lemma_bit_ops((a << 7) & capturable, diag, t);
        lemma_bit_ops(a << 7, capturable, t);
        lemma_bit_ops((b << 7) & capturable, NOT_FILE_H, t);
        lemma_bit_ops(b << 7, capturable, t);
        lemma_shl_bit(a, 7, t);
        lemma_shl_bit(b, 7, t);
        if t >= 7 {
            let s = (t - 7) as u8;
            lemma_bit_ops(free, diag, s);
            lemma_bit_ops(free, !diag, s);
            lemma_bit_ops(pawns, !ortho, s);
        }
    }
}

/// A capture towards the h-file ends on a square that may be taken and
/// starts on a pawn.
pub proof fn lemma_right_attack_source(
    pawns: u64,
    capturable: u64,
    ctm: u8,
    ortho: u64,
    diag: u64,
    t: u8,
)
    requires
        bit(right_attacks(pawns, capturable, ctm, ortho, diag), t),
    ensures
        bit(capturable, t),
        ctm == 0 ==> t + 7 < 64 && bit(pawns, (t + 7) as u8),
        ctm != 0 ==> t >= 9 && bit(pawns, (t - 9) as u8),
{
    let free = pawns & !ortho;
    let a = free & diag;
    let b = free & !diag;
    if ctm == 0 {
        let x = (a >> 7) & capturable & diag;
        let y = ((b >> 7) & capturable) & NOT_FILE_A;
        lemma_bit_ops(x, y, t);
        lemma_bit_ops((a >> 7) & capturable, diag, t);
        lemma_bit_ops(a >> 7, capturable, t);
        lemma_bit_ops((b >> 7) & capturable, NOT_FILE_A, t);
        lemma_bit_ops(b >> 7, capturable, t);
        lemma_shr_bit(a, 7, t);
        lemma_shr_bit(b, 7, t);
        if t + 7 < 64 {
            let s = (t + 7) as u8;
            lemma_bit_ops(free, diag, s);
            lemma_bit_ops(free, !diag, s);
            lemma_bit_ops(pawns, !ortho, s);
        }
    } else {
        let x = (a << 9) & capturable & diag;
        let y = ((b << 9) & capturable) & NOT_FILE_A;
        lemma_bit_ops(x, y, t);
        lemma_bit_ops((a << 9) & capturable, diag, t);
        lemma_bit_ops(a << 9, capturable, t);
        lemma_bit_ops((b << 9) & capturable, NOT_FILE_A, t);
        lemma_bit_ops(b << 9, capturable, t);
        lemma_shl_bit(a, 9, t);
        lemma_shl_bit(b, 9, t);
        if t >= 9 {
            let s = (t - 9) as u8;
            lemma_bit_ops(free, diag, s);
            lemma_bit_ops(free, !diag, s);
            lemma_bit_ops(pawns, !ortho, s);
        }
    }
}

/// The single and double pushes of all pawns of the side to move.
pub fn get_pawn_pushes_setwise(
    pawns: Bitboard,
    empties: Bitboard,
    ctm: u8,
    ortho_pin_mask: Bitboard,
    diag_pin_mask: Bitboard,
) -> (r: (Bitboard, Bitboard))
    ensures
        r.0.0 == single_pushes(pawns.0, empties.0, ctm, ortho_pin_mask.0, diag_pin_mask.0),
        r.1.0 == double_pushes(pawns.0, empties.0, ctm, ortho_pin_mask.0, diag_pin_mask.0),
{
    let free = pawns.0 & !diag_pin_mask.0;
    let ortho = ortho_pin_mask.0;
    let e = empties.0;
    let single = if ctm == 0 {
        ((free & !ortho) >> 8) & e | ((free & ortho) >> 8) & (e & ortho)
    } else {
        ((free & !ortho) << 8) & e | ((free & ortho) << 8) & (e & ortho)
    };
    let double = if ctm == 0 {
        ((single & (0xffu64 << 40)) >> 8) & e
    } else {
        ((single & (0xffu64 << 16)) << 8) & e
    };
    (Bitboard(single), Bitboard(double))
}

/// The captures of all pawns of the side to move, towards the a-file and
/// towards the h-file.
pub fn get_pawn_attacks_setwise(
    pawns: Bitboard,
    capturable: Bitboard,
    ctm: u8,
    ortho_pin_mask: Bitboard,
    diag_pin_mask: Bitboard,
) -> (r: (Bitboard, Bitboard))
    ensures
        r.0.0 == left_attacks(pawns.0, capturable.0, ctm, ortho_pin_mask.0, diag_pin_mask.0),
        r.1.0 == right_attacks(pawns.0, capturable.0, ctm, ortho_pin_mask.0, diag_pin_mask.0),
{
    let free = pawns.0 & !ortho_pin_mask.0;
    let diag = diag_pin_mask.0;
    let c = capturable.0;
    let left = if ctm == 0 {
        ((free & diag) >> 9 & c & diag) | ((free & !diag) >> 9 & c) & NOT_FILE_H
    } else {
        ((free & diag) << 7 & c & diag) | ((free & !diag) << 7 & c) & NOT_FILE_H
    };
    let right = if ctm == 0 {
        ((free & diag) >> 7 & c & diag) | ((free & !diag) >> 7 & c) & NOT_FILE_A
    } else {
        ((free & diag) << 9 & c & diag) | ((free & !diag) << 9 & c) & NOT_FILE_A
    };
    (Bitboard(left), Bitboard(right))
}

/// The squares attacked by a pawn of side `ctm` on `sq`.
pub fn get_pawn_attacks_lookup(sq: Square, ctm: u8) -> (b: Bitboard)
    requires
        sq.on_board(),
    ensures
        b.0 == pawn_attack_mask(sq.0, ctm),
        forall|j: u8| j < 64 ==> (#[trigger] bit(b.0, j) <==> pawn_attack(sq.0, j, ctm)),
{
    proof {
        assert forall|j: u8| j < 64 implies (#[trigger] bit(pawn_attack_mask(sq.0, ctm), j)
            <==> pawn_attack(sq.0, j, ctm)) by {
            lemma_pawn_attack_mask(sq.0, ctm, j);
        }
    }
    let b = 1u64 << (sq.0 as u64);
    if ctm == 1 {
        Bitboard(((b << 7) & NOT_FILE_H) | ((b << 9) & NOT_FILE_A))
    } else {
        Bitboard(((b >> 9) & NOT_FILE_H) | ((b >> 7) & NOT_FILE_A))
    }
}

} // verus!
