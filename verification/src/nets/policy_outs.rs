//! Where the rating of a move stands among the outputs of the policy
//! network.

use vstd::prelude::*;
use crate::bits::{lemma_popcount_bound, lemma_popcount_part, popcount};
use crate::movegen::others::{get_king_attacks, get_knight_attacks, king_mask, knight_mask};
use crate::movegen::slideys::{bishop_mask, get_bishop_attacks, get_rook_attacks, rook_mask};
use crate::types::bitboard::Bitboard;
use crate::types::moves::{lemma_fields_bounded, Move, FLAG_KNIGHT_PROMO};
use crate::types::square::Square;

verus! {

/// The number of outputs for moves that do not promote.
pub const PLAIN_SLOTS: usize = 1792;

/// The number of outputs for each piece a pawn promotes to.
pub const PROMO_SLOTS: usize = 22;

/// The number of outputs.
pub const OUTPUT_SIZE: usize = 1880;

/// The squares that some piece other than a pawn reaches from `sq` on an
/// empty board.
pub open spec fn reach_mask(sq: u8) -> u64 {
    rook_mask(sq, 0) | bishop_mask(sq, 0) | knight_mask(sq) | king_mask(sq)
}

/// The number of outputs that stand before those of the moves from `sq`:
/// one for each destination of each square below `sq`.
pub open spec fn offset_of(sq: nat) -> nat
    decreases sq,
{
    if sq == 0 {
        0
    } else {
        offset_of((sq - 1) as nat) + popcount(reach_mask((sq - 1) as u8))
    }
}

/// The file mirror that goes with a king on `king`: 7 where it stands on
/// the files e to h, else 0.
pub open spec fn mirror_of(king: u8) -> u8 {
    if king % 8 > 3 {
        7
    } else {
        0
    }
}

/// The output that rates the move `m`, seen by the side `ctm` with its king
/// on `king`.
///
/// The board is turned upside down for black and mirrored where the king
/// stands on the files e to h. A move that does not promote has its output
/// among those of its origin, at the place of its destination among the
/// destinations of the origin. The promotions follow, 22 outputs for each
/// of the four pieces, at twice the file of the origin plus the file of the
/// destination.
pub open spec fn move_slot(ctm: u8, m: Move, king: u8) -> int {
    let hm = mirror_of(king);
    let from = m.spec_from();
    let to = m.spec_to();
    if m.flag_code() >= FLAG_KNIGHT_PROMO {
        offset_of(64) + 22 * (m.flag_code() - FLAG_KNIGHT_PROMO) + 2 * ((from ^ hm) % 8) + (to
            ^ hm) % 8
    } else {
        let flipper: u8 = if ctm == 0 {
            56
        } else {
            0
        };
        let f = from ^ flipper ^ hm;
        let t = to ^ flipper ^ hm;
        (offset_of(f as nat) + popcount(reach_mask(f) & ((1u64 << (t as u64)) - 1) as u64)) as int
    }
}

/// The tables that outputs are looked up in.
pub struct MoveIndexer {
    pub destinations: Vec<u64>,
    pub offsets: Vec<usize>,
}

/// The outputs of the squares are counted upwards.
pub proof fn lemma_offsets_grow(a: nat, b: nat)
    requires
        a <= b,
    ensures
        offset_of(a) <= offset_of(b),
    decreases b,
{
    if a < b {
        lemma_offsets_grow(a, (b - 1) as nat);
    }
}

/// Turning and mirroring keep a square on the board.
pub proof fn lemma_mirrored(sq: u8, flipper: u8, hm: u8)
    requires
        sq < 64,
        flipper == 0 || flipper == 56,
        hm == 0 || hm == 7,
    ensures
        sq ^ flipper ^ hm < 64,
        (sq ^ hm) % 8 < 8,
{
    assert(sq < 64 && (flipper == 0 || flipper == 56) && (hm == 0 || hm == 7) ==> sq ^ flipper
        ^ hm < 64) by (bit_vector);
}

impl MoveIndexer {
    /// Whether the tables hold what they should, and the moves that do not
    /// promote have the outputs they are meant to have.
    pub open spec fn wf(self) -> bool {
        &&& self.destinations@.len() == 64
        &&& self.offsets@.len() == 65
        &&& forall|sq: int| 0 <= sq < 64 ==> #[trigger] self.destinations@[sq] == reach_mask(
            sq as u8,
        )
        &&& forall|sq: int| 0 <= sq <= 64 ==> #[trigger] self.offsets@[sq] == offset_of(
            sq as nat,
        )
        &&& offset_of(64) == PLAIN_SLOTS
    }

    /// The tables, or nothing where the moves that do not promote would not
    /// have 1792 outputs.
    pub fn new() -> (r: Option<MoveIndexer>)
        ensures
            r.is_some() == (offset_of(64) == PLAIN_SLOTS),
            r.is_some() ==> r.unwrap().wf(),
    {
        let mut destinations: Vec<u64> = Vec::new();
        let mut offsets: Vec<usize> = Vec::new();
        let mut total: usize = 0;
        let mut sq: u8 = 0;
        while sq < 64
            invariant
                sq <= 64,
                destinations@.len() == sq,
                offsets@.len() == sq,
                total == offset_of(sq as nat),
                total <= 64 * sq,
                forall|s: int| 0 <= s < sq ==> #[trigger] destinations@[s] == reach_mask(s as u8),
                forall|s: int| 0 <= s < sq ==> #[trigger] offsets@[s] == offset_of(s as nat),
            decreases 64 - sq,
        {
            let here = Square(sq);
            let none = Bitboard(0);
            let mask = get_rook_attacks(here, none).0 | get_bishop_attacks(here, none).0
                | get_knight_attacks(here).0 | get_king_attacks(here).0;
            proof {
                lemma_popcount_bound(mask);
            }
            destinations.push(mask);
            offsets.push(total);
            total += Bitboard(mask).popcount() as usize;
            sq += 1;
        }
        offsets.push(total);
        if total != PLAIN_SLOTS {
            return None;
        }
        Some(MoveIndexer { destinations, offsets })
    }

}

/// The output that rates the move `mov`, seen by the side `ctm` with its king
/// on `king`, looked up in `tables`.
pub fn move_index(tables: &MoveIndexer, ctm: u8, mov: Move, king: Square) -> (i: usize)
    requires
        tables.wf(),
        mov.has_flag(),
    ensures
        i == move_slot(ctm, mov, king.0),
        i < OUTPUT_SIZE,
{
        let hm: u8 = if king.0 % 8 > 3 { 7 } else { 0 };
        let from = mov.from();
        let to = mov.to();
        proof {
            lemma_fields_bounded(mov.0);
        }
        let flag = (mov.0 >> 12) as u8;
        if flag >= FLAG_KNIGHT_PROMO {
            let ffile = ((from ^ hm) % 8) as usize;
            let tfile = ((to ^ hm) % 8) as usize;
            tables.offsets[64] + PROMO_SLOTS * (flag - FLAG_KNIGHT_PROMO) as usize + 2 * ffile
                + tfile
        } else {
            let flipper: u8 = if ctm == 0 { 56 } else { 0 };
            proof {
                lemma_mirrored(from, flipper, hm);
                lemma_mirrored(to, flipper, hm);
            }
            let f = (from ^ flipper ^ hm) as usize;
            let t = to ^ flipper ^ hm;
            assert(1u64 << (t as u64) >= 1) by (bit_vector)
                requires
                    t < 64,
            ;
            let low = (1u64 << (t as u64)) - 1;
            let below = tables.destinations[f] & low;
            proof {
                lemma_popcount_part(tables.destinations@[f as int], low);
                lemma_offsets_grow((f + 1) as nat, 64);
            }
            tables.offsets[f] + Bitboard(below).popcount() as usize
        }
}

} // verus!
