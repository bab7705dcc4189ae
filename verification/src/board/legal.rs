//! What the legal moves of a position are: the list that move generation
//! produces, stated over the sets of squares of the position.

use vstd::prelude::*;
use crate::bits::{clear_lsb, lemma_clear_lsb_smaller, lsb, popcount, sq_bit};
use crate::board::position::{behind, Position};
use crate::board::stack::Board;
use crate::movegen::others::{king_mask, knight_mask};
use crate::movegen::pawns::{
    double_pushes, left_attacks, pawn_attack_mask, right_attacks, single_pushes,
};
use crate::movegen::slideys::{bishop_mask, rook_mask};
use crate::rays::{between_mask, line_mask};
use crate::types::bitboard::rank_mask;
use crate::types::moves::{
    pack, Move, FLAG_BISHOP_PROMO, FLAG_BK_CASTLE, FLAG_BQ_CASTLE, FLAG_DOUBLE_PUSH,
    FLAG_EN_PASSANT, FLAG_KNIGHT_PROMO, FLAG_NORMAL, FLAG_QUEEN_PROMO, FLAG_ROOK_PROMO,
    FLAG_WK_CASTLE, FLAG_WQ_CASTLE,
};
use crate::types::piece::{BISHOP, KING, KNIGHT, PAWN, QUEEN, ROOK};
use crate::types::square::NO_SQUARE;

verus! {

/// The squares f1 and g1, which must be empty for white to castle short.
pub const WK_PATH: u64 = 0x60;

/// The squares b1, c1 and d1, which must be empty for white to castle long.
pub const WQ_PATH: u64 = 0xe;

/// The squares f8 and g8.
pub const BK_PATH: u64 = 0x6000_0000_0000_0000;

/// The squares b8, c8 and d8.
pub const BQ_PATH: u64 = 0x0e00_0000_0000_0000;

/// The moves from `from` to each square of `targets`, lowest square first.
pub open spec fn moves_to(from: u8, targets: u64, flag: u8) -> Seq<Move>
    decreases targets,
    via moves_to_decreases
{
    if targets == 0 {
        Seq::empty()
    } else {
        seq![Move(pack(from, lsb(targets), flag))] + moves_to(from, clear_lsb(targets), flag)
    }
}

#[via_fn]
proof fn moves_to_decreases(from: u8, targets: u64, flag: u8) {
    if targets != 0 {
        lemma_clear_lsb_smaller(targets);
    }
}

/// The moves to each square of `targets`, lowest square first, each from the
/// square `delta` away from its destination.
pub open spec fn shifted_moves(targets: u64, delta: int, flag: u8) -> Seq<Move>
    decreases targets,
    via shifted_moves_decreases
{
    if targets == 0 {
        Seq::empty()
    } else {
        let to = lsb(targets);
        seq![Move(pack((to + delta) as u8, to, flag))] + shifted_moves(
            clear_lsb(targets),
            delta,
            flag,
        )
    }
}

#[via_fn]
proof fn shifted_moves_decreases(targets: u64, delta: int, flag: u8) {
    if targets != 0 {
        lemma_clear_lsb_smaller(targets);
    }
}

/// The promotions onto each square of `targets`, lowest square first, each
/// from the square `delta` away: to knight, bishop, rook and queen in turn.
pub open spec fn promotions(targets: u64, delta: int) -> Seq<Move>
    decreases targets,
    via promotions_decreases
{
    if targets == 0 {
        Seq::empty()
    } else {
        let to = lsb(targets);
        let from = (to + delta) as u8;
        seq![
            Move(pack(from, to, FLAG_KNIGHT_PROMO)),
            Move(pack(from, to, FLAG_BISHOP_PROMO)),
            Move(pack(from, to, FLAG_ROOK_PROMO)),
            Move(pack(from, to, FLAG_QUEEN_PROMO)),
        ] + promotions(clear_lsb(targets), delta)
    }
}

#[via_fn]
proof fn promotions_decreases(targets: u64, delta: int) {
    if targets != 0 {
        lemma_clear_lsb_smaller(targets);
    }
}

/// What is left of the king's steps `acc` after going through the checkers
/// from the lowest square up: for each checking bishop, rook or queen, the
/// line through king and checker is taken away, but for the checker's own
/// square.
pub open spec fn retreat_fold(p: Position, acc: u64, king: u8, checkers: u64) -> u64
    decreases checkers,
    via retreat_fold_decreases
{
    if checkers == 0 {
        acc
    } else {
        let checker = lsb(checkers);
        let kind = p.mailbox[checker as int] % 8;
        let next = if 2 <= kind <= 4 {
            acc & !(line_mask(king, checker) & !sq_bit(checker))
        } else {
            acc
        };
        retreat_fold(p, next, king, clear_lsb(checkers))
    }
}

#[via_fn]
proof fn retreat_fold_decreases(p: Position, acc: u64, king: u8, checkers: u64) {
    if checkers != 0 {
        lemma_clear_lsb_smaller(checkers);
    }
}

/// The king's moves from `from` to those squares of `targets`, lowest first,
/// that no enemy piece attacks when the squares of `occ` are occupied.
pub open spec fn safe_king_moves(p: Position, ctm: u8, from: u8, targets: u64, occ: u64) -> Seq<
    Move,
>
    decreases targets,
    via safe_king_moves_decreases
{
    if targets == 0 {
        Seq::empty()
    } else {
        let to = lsb(targets);
        let rest = safe_king_moves(p, ctm, from, clear_lsb(targets), occ);
        if p.attacked_with(ctm, to, occ) {
            rest
        } else {
            seq![Move(pack(from, to, FLAG_NORMAL))] + rest
        }
    }
}

#[via_fn]
proof fn safe_king_moves_decreases(p: Position, ctm: u8, from: u8, targets: u64, occ: u64) {
    if targets != 0 {
        lemma_clear_lsb_smaller(targets);
    }
}

/// The en-passant captures by the pawns in `takers`, lowest square first.
/// A capture counts when, with both pawns off their squares and the capturing
/// pawn on the en-passant square, no enemy rook, bishop or queen reaches the
/// king.
pub open spec fn en_passant_from(p: Position, ctm: u8, takers: u64) -> Seq<Move>
    decreases takers,
    via en_passant_from_decreases
{
    if takers == 0 {
        Seq::empty()
    } else {
        let taker = lsb(takers);
        let rest = en_passant_from(p, ctm, clear_lsb(takers));
        if p.en_passant_safe(ctm, taker) {
            seq![Move(pack(taker, p.ep_index.0, FLAG_EN_PASSANT))] + rest
        } else {
            rest
        }
    }
}

#[via_fn]
proof fn en_passant_from_decreases(p: Position, ctm: u8, takers: u64) {
    if takers != 0 {
        lemma_clear_lsb_smaller(takers);
    }
}

/// The moves of the pieces on the squares of `us`, lowest square first.
pub open spec fn piece_moves(p: Position, ctm: u8, us: u64) -> Seq<Move>
    decreases us,
    via piece_moves_decreases
{
    if us == 0 {
        Seq::empty()
    } else {
        p.moves_from(ctm, lsb(us)) + piece_moves(p, ctm, clear_lsb(us))
    }
}

#[via_fn]
proof fn piece_moves_decreases(p: Position, ctm: u8, us: u64) {
    if us != 0 {
        lemma_clear_lsb_smaller(us);
    }
}

/// The step from a pawn's destination back to its origin after a push.
pub open spec fn push_back(ctm: u8) -> int {
    if ctm == 0 {
        8
    } else {
        -8
    }
}

/// The step from a pawn's destination back to its origin after a capture
/// towards the a-file.
pub open spec fn left_back(ctm: u8) -> int {
    if ctm == 0 {
        9
    } else {
        -7
    }
}

/// The step from a pawn's destination back to its origin after a capture
/// towards the h-file.
pub open spec fn right_back(ctm: u8) -> int {
    if ctm == 0 {
        7
    } else {
        -9
    }
}

impl Position {
    /// How many pieces give check.
    pub open spec fn check_count(self) -> nat {
        popcount(self.checkers)
    }

    /// The squares on which a piece other than the king answers a single
    /// check: those between king and checker, and the checker's own.
    pub open spec fn block_mask(self, ctm: u8) -> u64 {
        let checker = lsb(self.checkers);
        between_mask(self.king_sqs[ctm as int], checker) | sq_bit(checker)
    }

    /// The squares a piece of the side to move may not move to whatever it
    /// is: those of its own side, and those of the kings.
    pub open spec fn barred(self, ctm: u8) -> u64 {
        self.colors[ctm as int] | self.pieces[5]
    }

    /// The castling moves: none in check; else, for each right of the side to
    /// move, the move when the squares between king and rook are empty and
    /// the two squares the king passes over and lands on are not attacked.
    pub open spec fn castle_moves(self, ctm: u8) -> Seq<Move> {
        let occ = self.occupied_mask();
        if self.check_count() != 0 {
            Seq::empty()
        } else if ctm == 1 {
            (if self.castling & 1 != 0 && occ & WK_PATH == 0 && !self.attacked_with(ctm, 5, occ)
                && !self.attacked_with(ctm, 6, occ) {
                seq![Move(pack(4, 6, FLAG_WK_CASTLE))]
            } else {
                Seq::empty()
            }) + (if self.castling & 2 != 0 && occ & WQ_PATH == 0 && !self.attacked_with(
                ctm,
                3,
                occ,
            ) && !self.attacked_with(ctm, 2, occ) {
                seq![Move(pack(4, 2, FLAG_WQ_CASTLE))]
            } else {
                Seq::empty()
            })
        } else {
            (if self.castling & 4 != 0 && occ & BK_PATH == 0 && !self.attacked_with(ctm, 61, occ)
                && !self.attacked_with(ctm, 62, occ) {
                seq![Move(pack(60, 62, FLAG_BK_CASTLE))]
            } else {
                Seq::empty()
            }) + (if self.castling & 8 != 0 && occ & BQ_PATH == 0 && !self.attacked_with(
                ctm,
                59,
                occ,
            ) && !self.attacked_with(ctm, 58, occ) {
                seq![Move(pack(60, 58, FLAG_BQ_CASTLE))]
            } else {
                Seq::empty()
            })
        }
    }

    /// Where the piece on `from` attacks, the pins taken into account: a
    /// pinned knight attacks nothing, a pinned slider only along the line of
    /// its pin, and the king nothing on the far side of a checking slider.
    /// Pawns are dealt with apart.
    pub open spec fn attack_from(self, ctm: u8, from: u8) -> u64 {
        let kind = self.mailbox[from as int] % 8;
        let occ = self.occupied_mask();
        let diag = self.diago_pin_mask & sq_bit(from) != 0;
        let ortho = self.ortho_pin_mask & sq_bit(from) != 0;
        if kind == KNIGHT {
            if diag || ortho {
                0
            } else {
                knight_mask(from)
            }
        } else if kind == BISHOP {
            if diag {
                bishop_mask(from, occ) & self.diago_pin_mask
            } else if ortho {
                0
            } else {
                bishop_mask(from, occ)
            }
        } else if kind == ROOK {
            if ortho {
                rook_mask(from, occ) & self.ortho_pin_mask
            } else if diag {
                0
            } else {
                rook_mask(from, occ)
            }
        } else if kind == QUEEN {
            if diag {
                bishop_mask(from, occ) & self.diago_pin_mask
            } else if ortho {
                rook_mask(from, occ) & self.ortho_pin_mask
            } else {
                bishop_mask(from, occ) | rook_mask(from, occ)
            }
        } else if kind == KING {
            retreat_fold(self, king_mask(from), from, self.checkers)
        } else {
            0
        }
    }

    /// Where the piece on `from` may go, before the king's destinations are
    /// tested for attacks: its attacks without the barred squares, and for a
    /// piece other than the king in single check only the blocking squares.
    pub open spec fn targets_from(self, ctm: u8, from: u8) -> u64 {
        let open = self.attack_from(ctm, from) & !self.barred(ctm);
        if self.mailbox[from as int] % 8 != KING && self.check_count() == 1 {
            open & self.block_mask(ctm)
        } else {
            open
        }
    }

    /// The moves of the piece on `from`. The king moves only where it is not
    /// attacked once it has left its square.
    pub open spec fn moves_from(self, ctm: u8, from: u8) -> Seq<Move> {
        if self.mailbox[from as int] % 8 == KING {
            safe_king_moves(
                self,
                ctm,
                from,
                self.targets_from(ctm, from),
                self.occupied_mask() ^ sq_bit(from),
            )
        } else {
            moves_to(from, self.targets_from(ctm, from), FLAG_NORMAL)
        }
    }

    /// The squares that move generation visits for pieces: the king alone in
    /// double check, else all pieces of the side to move.
    pub open spec fn movers(self, ctm: u8) -> u64 {
        if self.check_count() == 2 {
            self.piece_mask(KING, ctm)
        } else {
            self.colors[ctm as int]
        }
    }

    /// `mask` cut down to the blocking squares when in single check.
    pub open spec fn answering(self, ctm: u8, mask: u64) -> u64 {
        if self.check_count() == 1 {
            mask & self.block_mask(ctm)
        } else {
            mask
        }
    }

    /// The pawns of the side to move.
    pub open spec fn own_pawns(self, ctm: u8) -> u64 {
        self.pieces[0] & self.colors[ctm as int]
    }

    /// The squares on which a pawn of the side to move promotes.
    pub open spec fn last_rank(ctm: u8) -> u64 {
        rank_mask((7 * ctm) as u8)
    }

    /// The enemy pieces that may be taken: all but the king.
    pub open spec fn takeable(self, ctm: u8) -> u64 {
        self.colors[1 - ctm] & !self.pieces[5]
    }

    /// The destinations of single pawn pushes, promotions included.
    pub open spec fn push_targets(self, ctm: u8) -> u64 {
        self.answering(
            ctm,
            single_pushes(
                self.own_pawns(ctm),
                !self.occupied_mask(),
                ctm,
                self.ortho_pin_mask,
                self.diago_pin_mask,
            ),
        )
    }

    /// The destinations of double pawn pushes.
    pub open spec fn double_targets(self, ctm: u8) -> u64 {
        self.answering(
            ctm,
            double_pushes(
                self.own_pawns(ctm),
                !self.occupied_mask(),
                ctm,
                self.ortho_pin_mask,
                self.diago_pin_mask,
            ),
        )
    }

    /// The destinations of pawn captures towards the a-file, promotions
    /// included.
    pub open spec fn left_targets(self, ctm: u8) -> u64 {
        self.answering(
            ctm,
            left_attacks(
                self.own_pawns(ctm),
                self.takeable(ctm),
                ctm,
                self.ortho_pin_mask,
                self.diago_pin_mask,
            ),
        )
    }

    /// The destinations of pawn captures towards the h-file, promotions
    /// included.
    pub open spec fn right_targets(self, ctm: u8) -> u64 {
        self.answering(
            ctm,
            right_attacks(
                self.own_pawns(ctm),
                self.takeable(ctm),
                ctm,
                self.ortho_pin_mask,
                self.diago_pin_mask,
            ),
        )
    }

    /// Whether the pawn on `taker` may capture en passant: with the taker and
    /// the passed pawn off the board and the en-passant square occupied, no
    /// enemy rook or queen reaches the king along a rank or file, and no enemy
    /// bishop or queen along a diagonal.
    pub open spec fn en_passant_safe(self, ctm: u8, taker: u8) -> bool {
        let ep = self.ep_index.0;
        let opp = (1 - ctm) as u8;
        let occ = self.occupied_mask() ^ sq_bit(taker) ^ sq_bit(ep) ^ sq_bit(behind(ep, ctm));
        let king = self.king_sqs[ctm as int];
        let queens = self.piece_mask(QUEEN, opp);
        rook_mask(king, occ) & (queens | self.piece_mask(ROOK, opp)) == 0 && bishop_mask(king, occ)
            & (queens | self.piece_mask(BISHOP, opp)) == 0
    }

    /// The pawns that attack the en-passant square and are not pinned along
    /// a rank or file.
    pub open spec fn en_passant_takers(self, ctm: u8) -> u64 {
        pawn_attack_mask(self.ep_index.0, (1 - ctm) as u8) & self.own_pawns(ctm)
            & !self.ortho_pin_mask
    }

    /// The en-passant captures.
    pub open spec fn en_passant_moves(self, ctm: u8) -> Seq<Move> {
        if self.ep_index.0 != NO_SQUARE {
            en_passant_from(self, ctm, self.en_passant_takers(ctm))
        } else {
            Seq::empty()
        }
    }

    /// The pawn pushes: single pushes that do not promote, double pushes,
    /// then promotions by push.
    pub open spec fn pawn_pushes(self, ctm: u8) -> Seq<Move> {
        let single = self.push_targets(ctm);
        let promo = single & Self::last_rank(ctm);
        shifted_moves(single ^ promo, push_back(ctm), FLAG_NORMAL) + shifted_moves(
            self.double_targets(ctm),
            2 * push_back(ctm),
            FLAG_DOUBLE_PUSH,
        ) + promotions(promo, push_back(ctm))
    }

    /// The pawn captures: those that do not promote, towards the a-file and
    /// then towards the h-file, then the promotions by capture in the same
    /// order.
    pub open spec fn pawn_captures(self, ctm: u8) -> Seq<Move> {
        let left = self.left_targets(ctm);
        let right = self.right_targets(ctm);
        let left_promo = left & Self::last_rank(ctm);
        let right_promo = right & Self::last_rank(ctm);
        shifted_moves(left ^ left_promo, left_back(ctm), FLAG_NORMAL) + shifted_moves(
            right ^ right_promo,
            right_back(ctm),
            FLAG_NORMAL,
        ) + promotions(left_promo, left_back(ctm)) + promotions(right_promo, right_back(ctm))
    }

    /// All pawn moves: none in double check; else pushes, captures and
    /// en-passant captures.
    pub open spec fn pawn_moves(self, ctm: u8) -> Seq<Move> {
        if self.check_count() == 2 {
            Seq::empty()
        } else {
            self.pawn_pushes(ctm) + self.pawn_captures(ctm) + self.en_passant_moves(ctm)
        }
    }

    /// The legal moves with `ctm` to move, in the order of generation:
    /// castling, then the pieces from the lowest square up, then the pawns.
    ///
    /// With no check every piece moves and the king may castle; in single
    /// check a piece other than the king must take the checker or step
    /// between it and the king; in double check only the king moves. A king
    /// is never a destination.
    #[verifier::opaque]
    pub open spec fn legal_moves(self, ctm: u8) -> Seq<Move> {
        self.castle_moves(ctm) + piece_moves(self, ctm, self.movers(ctm)) + self.pawn_moves(ctm)
    }
}

impl Board {
    /// The legal moves of the current position.
    pub open spec fn legal_moves(self) -> Seq<Move> {
        self.top().legal_moves(self.ctm)
    }
}

} // verus!
