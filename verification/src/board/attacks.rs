//! Who attacks a square, who gives check, and which lines hold a pinned
//! piece.

use vstd::prelude::*;
use crate::bits::{clear_lsb, lemma_clear_lsb_smaller, lsb, popcount, sq_bit};
use crate::board::position::Position;
use crate::board::stack::Board;
use crate::movegen::others::{get_king_attacks, get_knight_attacks, king_mask, knight_mask};
use crate::movegen::pawns::{get_pawn_attacks_lookup, pawn_attack_mask};
use crate::movegen::slideys::{bishop_mask, get_bishop_attacks, get_rook_attacks, rook_mask};
use crate::rays::{between_mask, ray_between};
use crate::types::bitboard::Bitboard;
use crate::types::piece::{BISHOP, KING, KNIGHT, PAWN, QUEEN, ROOK};
use crate::types::square::Square;

verus! {

/// The result of going through the candidate pinners in `candidates` from the
/// lowest square up, starting from the mask `acc`. For each candidate, the
/// segment from the king (not included) to the candidate (included) joins the
/// mask when exactly one square of it is in `us`.
pub open spec fn pin_fold(acc: u64, king: u8, us: u64, candidates: u64) -> u64
    decreases candidates,
    via pin_fold_decreases
{
    if candidates == 0 {
        acc
    } else {
        let pinner = lsb(candidates);
        let segment = between_mask(king, pinner) | sq_bit(pinner);
        let next = if popcount(segment & us) == 1 {
            acc | segment
        } else {
            acc
        };
        pin_fold(next, king, us, clear_lsb(candidates))
    }
}

#[via_fn]
proof fn pin_fold_decreases(acc: u64, king: u8, us: u64, candidates: u64) {
    if candidates != 0 {
        lemma_clear_lsb_smaller(candidates);
    }
}

impl Position {
    /// The pieces of the side not to move that attack `sq` when the squares
    /// of `occ` are occupied: its pawns, knights and king that stand where a
    /// piece of that kind on `sq` would attack, and its sliders that a slider
    /// on `sq` would reach.
    pub open spec fn attackers_mask(self, ctm: u8, sq: u8, occ: u64) -> u64 {
        let opp = (1 - ctm) as u8;
        let queens = self.piece_mask(QUEEN, opp);
        (pawn_attack_mask(sq, ctm) & self.piece_mask(PAWN, opp)) | (knight_mask(sq)
            & self.piece_mask(KNIGHT, opp)) | (bishop_mask(sq, occ) & (self.piece_mask(BISHOP, opp)
            | queens)) | (rook_mask(sq, occ) & (self.piece_mask(ROOK, opp) | queens)) | (king_mask(
            sq,
        ) & self.piece_mask(KING, opp))
    }

    /// Whether a piece of the side not to move attacks `sq` when the squares
    /// of `occ` are occupied.
    pub open spec fn attacked_with(self, ctm: u8, sq: u8, occ: u64) -> bool {
        let opp = (1 - ctm) as u8;
        let queens = self.piece_mask(QUEEN, opp);
        ||| rook_mask(sq, occ) & (queens | self.piece_mask(ROOK, opp)) != 0
        ||| bishop_mask(sq, occ) & (queens | self.piece_mask(BISHOP, opp)) != 0
        ||| knight_mask(sq) & self.piece_mask(KNIGHT, opp) != 0
        ||| pawn_attack_mask(sq, ctm) & self.piece_mask(PAWN, opp) != 0
        ||| king_mask(sq) & self.piece_mask(KING, opp) != 0
    }

    /// The pieces that give check to the side to move.
    pub open spec fn checkers_mask(self, ctm: u8) -> u64 {
        self.attackers_mask(ctm, self.king_sqs[ctm as int], self.occupied_mask())
    }

    /// The lines along which a piece of the side to move is pinned by a
    /// bishop or queen.
    pub open spec fn diago_pins(self, ctm: u8) -> u64 {
        let opp = (1 - ctm) as u8;
        let king = self.king_sqs[ctm as int];
        let pinners = (self.piece_mask(QUEEN, opp) | self.piece_mask(BISHOP, opp)) & bishop_mask(
            king,
            self.colors[opp as int],
        );
        pin_fold(0, king, self.colors[ctm as int], pinners)
    }

    /// The lines along which a piece of the side to move is pinned by a rook
    /// or queen.
    pub open spec fn ortho_pins(self, ctm: u8) -> u64 {
        let opp = (1 - ctm) as u8;
        let king = self.king_sqs[ctm as int];
        let pinners = (self.piece_mask(QUEEN, opp) | self.piece_mask(ROOK, opp)) & rook_mask(
            king,
            self.colors[opp as int],
        );
        pin_fold(0, king, self.colors[ctm as int], pinners)
    }

    /// Whether the stored check and pin masks are those of the placement.
    pub open spec fn masks_agree(self, ctm: u8) -> bool {
        &&& self.checkers == self.checkers_mask(ctm)
        &&& self.diago_pin_mask == self.diago_pins(ctm)
        &&& self.ortho_pin_mask == self.ortho_pins(ctm)
    }

    /// The position with its check and pin masks computed anew.
    pub open spec fn with_masks(self, ctm: u8) -> Position {
        Position {
            checkers: self.checkers_mask(ctm),
            diago_pin_mask: self.diago_pins(ctm),
            ortho_pin_mask: self.ortho_pins(ctm),
            ..self
        }
    }

    /// Whether the position is sound with `ctm` to move: the sets of squares
    /// agree with the mailbox, each side has its one king where `king_sqs`
    /// says, rights and en-passant square are backed by pieces, and hash,
    /// check mask and pin masks are what the placement gives.
    pub open spec fn wf(self, ctm: u8) -> bool {
        self.placement_wf(ctm) && self.masks_agree(ctm)
    }

    /// The pieces of the side not to move that attack `sq`.
    pub fn attackers(&self, ctm: u8, sq: Square, occ: Bitboard) -> (b: Bitboard)
        requires
            ctm < 2,
            sq.on_board(),
        ensures
            b.0 == self.attackers_mask(ctm, sq.0, occ.0),
    {
        let opp = 1 - ctm;
        let queens = self.colored_piece(QUEEN, opp).0;
        Bitboard(
            (get_pawn_attacks_lookup(sq, ctm).0 & self.colored_piece(PAWN, opp).0) | (
            get_knight_attacks(sq).0 & self.colored_piece(KNIGHT, opp).0) | (get_bishop_attacks(
                sq,
                occ,
            ).0 & (self.colored_piece(BISHOP, opp).0 | queens)) | (get_rook_attacks(sq, occ).0 & (
            self.colored_piece(ROOK, opp).0 | queens)) | (get_king_attacks(sq).0
                & self.colored_piece(KING, opp).0),
        )
    }

    /// Whether a piece of the side not to move attacks `sq` when the squares
    /// of `occ` are occupied.
    pub fn is_attacked(&self, ctm: u8, sq: Square, occ: Bitboard) -> (b: bool)
        requires
            ctm < 2,
            sq.on_board(),
        ensures
            b == self.attacked_with(ctm, sq.0, occ.0),
    {
        let opp = 1 - ctm;
        let queens = self.colored_piece(QUEEN, opp).0;
        if get_rook_attacks(sq, occ).0 & (queens | self.colored_piece(ROOK, opp).0) != 0 {
            return true;
        }
        if get_bishop_attacks(sq, occ).0 & (queens | self.colored_piece(BISHOP, opp).0) != 0 {
            return true;
        }
        if get_knight_attacks(sq).0 & self.colored_piece(KNIGHT, opp).0 != 0 {
            return true;
        }
        if get_pawn_attacks_lookup(sq, ctm).0 & self.colored_piece(PAWN, opp).0 != 0 {
            return true;
        }
        get_king_attacks(sq).0 & self.colored_piece(KING, opp).0 != 0
    }

    /// Goes through the candidate pinners and collects the pinned lines.
    fn collect_pins(king: Square, us: u64, candidates: u64) -> (mask: u64)
        requires
            king.on_board(),
        ensures
            mask == pin_fold(0, king.0, us, candidates),
    {
        let mut mask: u64 = 0;
        let mut left = Bitboard(candidates);
        while left.0 != 0
            invariant
                king.on_board(),
                pin_fold(mask, king.0, us, left.0) == pin_fold(0, king.0, us, candidates),
            decreases left.0,
        {
            proof {
                lemma_clear_lsb_smaller(left.0);
            }
            let pinner = Square(left.pop_lsb());
            let segment = ray_between(king, pinner).0 | (1u64 << (pinner.0 as u64));
            if Bitboard(segment & us).contains_one() {
                mask = mask | segment;
            }
        }
        mask
    }

    /// Computes the check mask and the two pin masks anew for `ctm` to move.
    pub fn refresh_masks(&mut self, ctm: u8)
        requires
            ctm < 2,
            old(self).king_sqs[ctm as int] < 64,
        ensures
            *final(self) == old(self).with_masks(ctm),
    {
        let opp = 1 - ctm;
        let king = Square(self.king_sqs[ctm as usize]);
        let checkers = self.attackers(ctm, king, self.occupied());
        let us = self.colors[ctm as usize];
        let them = Bitboard(self.colors[opp as usize]);
        let queens = self.colored_piece(QUEEN, opp).0;
        let diago = (queens | self.colored_piece(BISHOP, opp).0) & get_bishop_attacks(king, them).0;
        let ortho = (queens | self.colored_piece(ROOK, opp).0) & get_rook_attacks(king, them).0;
        self.checkers = checkers.0;
        self.diago_pin_mask = Position::collect_pins(king, us, diago);
        self.ortho_pin_mask = Position::collect_pins(king, us, ortho);
    }
}

impl Board {
    /// Whether the side to move is in check.
    pub fn in_check(&self) -> (b: bool)
        requires
            self.states@.len() > 0,
        ensures
            b == (self.top().checkers != 0),
    {
        self.current_state().checkers != 0
    }

    /// Whether a piece of the side not to move attacks `sq`.
    pub fn square_attacked(&self, sq: Square) -> (b: bool)
        requires
            self.states@.len() > 0,
            self.ctm < 2,
            sq.on_board(),
        ensures
            b == self.top().attacked_with(self.ctm, sq.0, self.top().occupied_mask()),
    {
        let state = self.current_state();
        state.is_attacked(self.ctm, sq, state.occupied())
    }

    /// Whether a piece of the side not to move attacks `sq` when the squares
    /// of `occ`, rather than those of the position, are occupied.
    pub fn square_attacked_occ(&self, sq: Square, occ: Bitboard) -> (b: bool)
        requires
            self.states@.len() > 0,
            self.ctm < 2,
            sq.on_board(),
        ensures
            b == self.top().attacked_with(self.ctm, sq.0, occ.0),
    {
        self.current_state().is_attacked(self.ctm, sq, occ)
    }

    /// The pieces of the side not to move that attack `sq`.
    pub fn get_attackers(&self, sq: Square) -> (b: Bitboard)
        requires
            self.states@.len() > 0,
            self.ctm < 2,
            sq.on_board(),
        ensures
            b.0 == self.top().attackers_mask(self.ctm, sq.0, self.top().occupied_mask()),
    {
        let state = self.current_state();
        state.attackers(self.ctm, sq, state.occupied())
    }

    /// Computes the check and pin masks of the current position anew.
    pub fn update_pins_and_checkers(&mut self)
        requires
            old(self).states@.len() > 0,
            old(self).ctm < 2,
            old(self).top().king_sqs[old(self).ctm as int] < 64,
        ensures
            final(self).states@ == old(self).states@.drop_last().push(
                old(self).top().with_masks(old(self).ctm),
            ),
            final(self).ctm == old(self).ctm,
            final(self).ply == old(self).ply,
    {
        let mut state = *self.current_state();
        state.refresh_masks(self.ctm);
        self.states.pop();
        self.states.push(state);
    }
}

} // verus!
