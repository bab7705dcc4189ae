//! Move generation: the legal moves of a position, and their number.

use vstd::prelude::*;
use crate::bits::{
    bit, clear_lsb, lemma_bit_ops, lemma_clear_lsb_smaller, lemma_popcount_clear_lsb, lsb,
    popcount, sq_bit,
};
use crate::board::legal::{
    en_passant_from, left_back, moves_to, piece_moves, promotions, push_back, retreat_fold,
    right_back, safe_king_moves, shifted_moves, BK_PATH, BQ_PATH, WK_PATH, WQ_PATH,
};
use crate::board::position::{behind, Position};
use crate::board::stack::Board;
use crate::movegen::others::{get_king_attacks, get_knight_attacks};
use crate::movegen::pawns::{
    get_pawn_attacks_lookup, get_pawn_attacks_setwise, get_pawn_pushes_setwise,
    lemma_double_push_source, lemma_left_attack_source, lemma_right_attack_source,
    lemma_single_push_source,
};
use crate::movegen::slideys::{get_bishop_attacks, get_rook_attacks};
use crate::rays::{ray_between, ray_intersecting};
use crate::types::bitboard::{lemma_popcount_zero, Bitboard};
use crate::types::movelist::{MoveList, MAX_MOVES};
use crate::types::moves::{
    Move, FLAG_BISHOP_PROMO, FLAG_BK_CASTLE, FLAG_BQ_CASTLE, FLAG_DOUBLE_PUSH, FLAG_EN_PASSANT,
    FLAG_KNIGHT_PROMO, FLAG_NORMAL, FLAG_QUEEN_PROMO, FLAG_ROOK_PROMO, FLAG_WK_CASTLE,
    FLAG_WQ_CASTLE,
};
use crate::types::piece::{BISHOP, KING, KNIGHT, QUEEN, ROOK};
use crate::types::square::{Square, NO_SQUARE};

verus! {

/// A list of moves to given squares is as long as the squares are many.
pub proof fn lemma_moves_to_len(from: u8, targets: u64, flag: u8)
    ensures
        moves_to(from, targets, flag).len() == popcount(targets),
    decreases targets,
{
    if targets != 0 {
        lemma_clear_lsb_smaller(targets);
        lemma_popcount_clear_lsb(targets);
        lemma_moves_to_len(from, clear_lsb(targets), flag);
    }
}

/// A list of moves to given squares is as long as the squares are many.
pub proof fn lemma_shifted_moves_len(targets: u64, delta: int, flag: u8)
    ensures
        shifted_moves(targets, delta, flag).len() == popcount(targets),
    decreases targets,
{
    if targets != 0 {
        lemma_clear_lsb_smaller(targets);
        lemma_popcount_clear_lsb(targets);
        lemma_shifted_moves_len(clear_lsb(targets), delta, flag);
    }
}

/// There are four promotions for each square.
pub proof fn lemma_promotions_len(targets: u64, delta: int)
    ensures
        promotions(targets, delta).len() == 4 * popcount(targets),
    decreases targets,
{
    if targets != 0 {
        lemma_clear_lsb_smaller(targets);
        lemma_popcount_clear_lsb(targets);
        lemma_promotions_len(clear_lsb(targets), delta);
    }
}

/// Appends the moves from `from` to each square of `targets`.
fn push_moves_to(list: &mut MoveList, from: u8, targets: u64, flag: u8)
    requires
        old(list)@.len() + moves_to(from, targets, flag).len() <= MAX_MOVES,
    ensures
        final(list)@ == old(list)@ + moves_to(from, targets, flag),
{
    let ghost start = list@;
    let mut left = Bitboard(targets);
    while left.0 != 0
        invariant
            list@ + moves_to(from, left.0, flag) == start + moves_to(from, targets, flag),
            start.len() + moves_to(from, targets, flag).len() <= MAX_MOVES,
        decreases left.0,
    {
        let ghost before = left.0;
        let ghost held = list@;
        proof {
            lemma_clear_lsb_smaller(left.0);
        }
        let to = left.pop_lsb();
        assert(moves_to(from, before, flag).len() >= 1);
        assert((held + moves_to(from, before, flag)).len() == (start + moves_to(
            from,
            targets,
            flag,
        )).len());
        list.push(Move::new_unchecked(from, to, flag));
        proof {
            assert(list@ + moves_to(from, left.0, flag) =~= held + moves_to(from, before, flag));
        }
    }
    proof {
        assert(list@ + moves_to(from, 0, flag) =~= list@);
    }
}

/// The origin of a pawn move that ends on `to`.
fn origin(to: u8, forward: bool, step: u8) -> (from: u8)
    requires
        to < 64,
        step <= 16,
        !forward ==> to >= step,
    ensures
        from == to + (if forward { step as int } else { -(step as int) }),
{
    if forward {
        to + step
    } else {
        to - step
    }
}

/// Appends the moves to each square of `targets`, each from the square
/// `step` above (`forward`) or below its destination.
fn push_shifted(list: &mut MoveList, targets: u64, forward: bool, step: u8, flag: u8)
    requires
        step <= 16,
        !forward ==> forall|t: u8| #[trigger] bit(targets, t) ==> t >= step,
        old(list)@.len() + shifted_moves(
            targets,
            if forward { step as int } else { -(step as int) },
            flag,
        ).len() <= MAX_MOVES,
    ensures
        final(list)@ == old(list)@ + shifted_moves(
            targets,
            if forward { step as int } else { -(step as int) },
            flag,
        ),
{
    let ghost start = list@;
    let ghost delta = if forward { step as int } else { -(step as int) };
    let mut left = Bitboard(targets);
    while left.0 != 0
        invariant
            step <= 16,
            delta == if forward { step as int } else { -(step as int) },
            forall|t: u8| #[trigger] bit(left.0, t) ==> bit(targets, t),
            !forward ==> forall|t: u8| #[trigger] bit(targets, t) ==> t >= step,
            list@ + shifted_moves(left.0, delta, flag) == start + shifted_moves(
                targets,
                delta,
                flag,
            ),
            start.len() + shifted_moves(targets, delta, flag).len() <= MAX_MOVES,
        decreases left.0,
    {
        let ghost before = left.0;
        let ghost held = list@;
        proof {
            lemma_clear_lsb_smaller(left.0);
        }
        let to = left.pop_lsb();
        assert(bit(before, to));
        let from = origin(to, forward, step);
        assert(shifted_moves(before, delta, flag).len() >= 1);
        assert((held + shifted_moves(before, delta, flag)).len() == (start + shifted_moves(
            targets,
            delta,
            flag,
        )).len());
        list.push(Move::new_unchecked(from, to, flag));
        proof {
            assert(list@ + shifted_moves(left.0, delta, flag) =~= held + shifted_moves(
                before,
                delta,
                flag,
            ));
        }
    }
    proof {
        assert(list@ + shifted_moves(0, delta, flag) =~= list@);
    }
}

/// Appends the four promotions onto each square of `targets`, each from the
/// square `step` above (`forward`) or below its destination.
fn push_promotions(list: &mut MoveList, targets: u64, forward: bool, step: u8)
    requires
        step <= 16,
        !forward ==> forall|t: u8| #[trigger] bit(targets, t) ==> t >= step,
        old(list)@.len() + promotions(
            targets,
            if forward { step as int } else { -(step as int) },
        ).len() <= MAX_MOVES,
    ensures
        final(list)@ == old(list)@ + promotions(
            targets,
            if forward { step as int } else { -(step as int) },
        ),
{
    let ghost start = list@;
    let ghost delta = if forward { step as int } else { -(step as int) };
    let mut left = Bitboard(targets);
    while left.0 != 0
        invariant
            step <= 16,
            delta == if forward { step as int } else { -(step as int) },
            forall|t: u8| #[trigger] bit(left.0, t) ==> bit(targets, t),
            !forward ==> forall|t: u8| #[trigger] bit(targets, t) ==> t >= step,
            list@ + promotions(left.0, delta) == start + promotions(targets, delta),
            start.len() + promotions(targets, delta).len() <= MAX_MOVES,
        decreases left.0,
    {
        let ghost before = left.0;
        let ghost held = list@;
        proof {
            lemma_clear_lsb_smaller(left.0);
        }
        let to = left.pop_lsb();
        assert(bit(before, to));
        let from = origin(to, forward, step);
        assert(promotions(before, delta).len() >= 4);
        assert((held + promotions(before, delta)).len() == (start + promotions(
            targets,
            delta,
        )).len());
        list.push(Move::new_unchecked(from, to, FLAG_KNIGHT_PROMO));
        list.push(Move::new_unchecked(from, to, FLAG_BISHOP_PROMO));
        list.push(Move::new_unchecked(from, to, FLAG_ROOK_PROMO));
        list.push(Move::new_unchecked(from, to, FLAG_QUEEN_PROMO));
        proof {
            assert(list@ + promotions(left.0, delta) =~= held + promotions(before, delta));
        }
    }
    proof {
        assert(list@ + promotions(0, delta) =~= list@);
    }
}

/// The masks that pawn moves are generated from.
pub struct PawnTargets {
    pub quiet: u64,
    pub double: u64,
    pub promo: u64,
    pub left: u64,
    pub right: u64,
    pub left_promo: u64,
    pub right_promo: u64,
}

impl Position {
    /// The king's steps without the squares on the far side of a checking
    /// slider.
    fn king_retreats(&self, king: Square) -> (m: u64)
        requires
            king.on_board(),
        ensures
            m == retreat_fold(*self, crate::movegen::others::king_mask(king.0), king.0, self.checkers),
    {
        let mut acc = get_king_attacks(king).0;
        let mut left = Bitboard(self.checkers);
        while left.0 != 0
            invariant
                king.on_board(),
                retreat_fold(*self, acc, king.0, left.0) == retreat_fold(
                    *self,
                    crate::movegen::others::king_mask(king.0),
                    king.0,
                    self.checkers,
                ),
            decreases left.0,
        {
            proof {
                lemma_clear_lsb_smaller(left.0);
            }
            let checker = left.pop_lsb();
            let kind = self.mailbox[checker as usize] % 8;
            if 2 <= kind && kind <= 4 {
                acc = acc & !(ray_intersecting(king, Square(checker)).0 & !(1u64 << (
                checker as u64)));
            }
        }
        acc
    }

    /// Where the piece on `from` attacks, the pins taken into account.
    fn attack_of(&self, ctm: u8, from: Square) -> (m: u64)
        requires
            from.on_board(),
        ensures
            m == self.attack_from(ctm, from.0),
    {
        let kind = self.mailbox[from.0 as usize] % 8;
        let occ = self.occupied();
        let b = 1u64 << (from.0 as u64);
        let diag = self.diago_pin_mask & b != 0;
        let ortho = self.ortho_pin_mask & b != 0;
        if kind == KNIGHT {
            if diag || ortho {
                0
            } else {
                get_knight_attacks(from).0
            }
        } else if kind == BISHOP {
            if diag {
                get_bishop_attacks(from, occ).0 & self.diago_pin_mask
            } else if ortho {
                0
            } else {
                get_bishop_attacks(from, occ).0
            }
        } else if kind == ROOK {
            if ortho {
                get_rook_attacks(from, occ).0 & self.ortho_pin_mask
            } else if diag {
                0
            } else {
                get_rook_attacks(from, occ).0
            }
        } else if kind == QUEEN {
            if diag {
                get_bishop_attacks(from, occ).0 & self.diago_pin_mask
            } else if ortho {
                get_rook_attacks(from, occ).0 & self.ortho_pin_mask
            } else {
                get_bishop_attacks(from, occ).0 | get_rook_attacks(from, occ).0
            }
        } else if kind == KING {
            self.king_retreats(from)
        } else {
            0
        }
    }

    /// The number of checkers, and the blocking squares when there is one.
    fn check_state(&self, ctm: u8) -> (r: (u32, u64))
        requires
            ctm < 2,
            self.king_sqs[ctm as int] < 64,
        ensures
            r.0 == self.check_count(),
            r.0 == 1 ==> r.1 == self.block_mask(ctm),
    {
        let checkers = Bitboard(self.checkers);
        let n = checkers.popcount();
        if n == 1 {
            proof {
                lemma_popcount_zero(self.checkers);
            }
            let checker = Square(checkers.lsb());
            let block = ray_between(Square(self.king_sqs[ctm as usize]), checker).0 | (1u64 << (
            checker.0 as u64));
            (n, block)
        } else {
            (n, 0)
        }
    }

    /// Where the piece on `from` may go.
    fn targets_of(&self, ctm: u8, from: Square, checks: u32, block: u64) -> (m: u64)
        requires
            ctm < 2,
            from.on_board(),
            checks == self.check_count(),
            checks == 1 ==> block == self.block_mask(ctm),
        ensures
            m == self.targets_from(ctm, from.0),
    {
        let open = self.attack_of(ctm, from) & !(self.colors[ctm as usize] | self.pieces[5]);
        if self.mailbox[from.0 as usize] % 8 != KING && checks == 1 {
            open & block
        } else {
            open
        }
    }

    /// Appends the king's moves from `from` to the squares of `targets` that
    /// are not attacked.
    fn push_safe_king_moves(&self, ctm: u8, list: &mut MoveList, from: u8, targets: u64, occ: u64)
        requires
            ctm < 2,
            old(list)@.len() + safe_king_moves(*self, ctm, from, targets, occ).len() <= MAX_MOVES,
        ensures
            final(list)@ == old(list)@ + safe_king_moves(*self, ctm, from, targets, occ),
    {
        let ghost start = list@;
        let mut left = Bitboard(targets);
        while left.0 != 0
            invariant
                ctm < 2,
                list@ + safe_king_moves(*self, ctm, from, left.0, occ) == start + safe_king_moves(
                    *self,
                    ctm,
                    from,
                    targets,
                    occ,
                ),
                start.len() + safe_king_moves(*self, ctm, from, targets, occ).len() <= MAX_MOVES,
            decreases left.0,
        {
            let ghost before = left.0;
            let ghost held = list@;
            proof {
                lemma_clear_lsb_smaller(left.0);
            }
            let to = left.pop_lsb();
            if !self.is_attacked(ctm, Square(to), Bitboard(occ)) {
                assert(safe_king_moves(*self, ctm, from, before, occ).len() >= 1);
                assert((held + safe_king_moves(*self, ctm, from, before, occ)).len() == (start
                    + safe_king_moves(*self, ctm, from, targets, occ)).len());
                list.push(Move::new_unchecked(from, to, FLAG_NORMAL));
                proof {
                    assert(list@ + safe_king_moves(*self, ctm, from, left.0, occ) =~= held
                        + safe_king_moves(*self, ctm, from, before, occ));
                }
            }
        }
        proof {
            assert(list@ + safe_king_moves(*self, ctm, from, 0, occ) =~= list@);
        }
    }

    /// The number of squares of `targets` that are not attacked.
    fn count_safe_king_moves(&self, ctm: u8, from: u8, targets: u64, occ: u64) -> (n: u64)
        requires
            ctm < 2,
        ensures
            n == safe_king_moves(*self, ctm, from, targets, occ).len(),
            n <= popcount(targets),
    {
        let mut n: u64 = 0;
        let mut left = Bitboard(targets);
        proof {
            crate::bits::lemma_popcount_bound(targets);
        }
        while left.0 != 0
            invariant
                ctm < 2,
                n + safe_king_moves(*self, ctm, from, left.0, occ).len() == safe_king_moves(
                    *self,
                    ctm,
                    from,
                    targets,
                    occ,
                ).len(),
                n + popcount(left.0) <= popcount(targets) <= 64,
            decreases left.0,
        {
            proof {
                lemma_clear_lsb_smaller(left.0);
                lemma_popcount_clear_lsb(left.0);
            }
            let to = left.pop_lsb();
            if !self.is_attacked(ctm, Square(to), Bitboard(occ)) {
                n += 1;
            }
        }
        n
    }

    /// Appends the moves of the piece on `from`.
    fn push_moves_from(&self, ctm: u8, from: u8, checks: u32, block: u64, list: &mut MoveList)
        requires
            ctm < 2,
            from < 64,
            checks == self.check_count(),
            checks == 1 ==> block == self.block_mask(ctm),
            old(list)@.len() + self.moves_from(ctm, from).len() <= MAX_MOVES,
        ensures
            final(list)@ == old(list)@ + self.moves_from(ctm, from),
    {
        let targets = self.targets_of(ctm, Square(from), checks, block);
        if self.mailbox[from as usize] % 8 == KING {
            let occ = self.occupied().0 ^ (1u64 << (from as u64));
            self.push_safe_king_moves(ctm, list, from, targets, occ);
        } else {
            push_moves_to(list, from, targets, FLAG_NORMAL);
        }
    }

    /// The number of moves of the piece on `from`.
    fn count_moves_from(&self, ctm: u8, from: u8, checks: u32, block: u64) -> (n: u64)
        requires
            ctm < 2,
            from < 64,
            checks == self.check_count(),
            checks == 1 ==> block == self.block_mask(ctm),
        ensures
            n == self.moves_from(ctm, from).len(),
            n <= 64,
    {
        let targets = self.targets_of(ctm, Square(from), checks, block);
        if self.mailbox[from as usize] % 8 == KING {
            let occ = self.occupied().0 ^ (1u64 << (from as u64));
            proof {
                crate::bits::lemma_popcount_bound(targets);
            }
            self.count_safe_king_moves(ctm, from, targets, occ)
        } else {
            proof {
                lemma_moves_to_len(from, targets, FLAG_NORMAL);
            }
            Bitboard(targets).popcount() as u64
        }
    }

    /// The squares that move generation visits for pieces.
    fn movers_of(&self, ctm: u8, checks: u32) -> (m: u64)
        requires
            ctm < 2,
            checks == self.check_count(),
        ensures
            m == self.movers(ctm),
    {
        if checks == 2 {
            self.colors[ctm as usize] & self.pieces[5]
        } else {
            self.colors[ctm as usize]
        }
    }

    /// Appends the moves of all pieces but the pawns.
    fn push_piece_moves(&self, ctm: u8, checks: u32, block: u64, list: &mut MoveList)
        requires
            ctm < 2,
            checks == self.check_count(),
            checks == 1 ==> block == self.block_mask(ctm),
            old(list)@.len() + piece_moves(*self, ctm, self.movers(ctm)).len() <= MAX_MOVES,
        ensures
            final(list)@ == old(list)@ + piece_moves(*self, ctm, self.movers(ctm)),
    {
        let ghost start = list@;
        let ghost all = piece_moves(*self, ctm, self.movers(ctm));
        let mut us = Bitboard(self.movers_of(ctm, checks));
        while us.0 != 0
            invariant
                ctm < 2,
                checks == self.check_count(),
                checks == 1 ==> block == self.block_mask(ctm),
                list@ + piece_moves(*self, ctm, us.0) == start + all,
                start.len() + all.len() <= MAX_MOVES,
            decreases us.0,
        {
            let ghost before = us.0;
            let ghost held = list@;
            proof {
                lemma_clear_lsb_smaller(us.0);
            }
            let from = us.pop_lsb();
            assert((held + piece_moves(*self, ctm, before)).len() == (start + all).len());
            assert(piece_moves(*self, ctm, before).len() == self.moves_from(ctm, from).len()
                + piece_moves(*self, ctm, us.0).len());
            self.push_moves_from(ctm, from, checks, block, list);
            proof {
                assert(list@ + piece_moves(*self, ctm, us.0) =~= held + piece_moves(
                    *self,
                    ctm,
                    before,
                ));
            }
        }
        proof {
            assert(list@ + piece_moves(*self, ctm, 0) =~= list@);
        }
    }

    /// The number of moves of all pieces but the pawns.
    fn count_piece_moves(&self, ctm: u8, checks: u32, block: u64) -> (n: u64)
        requires
            ctm < 2,
            checks == self.check_count(),
            checks == 1 ==> block == self.block_mask(ctm),
        ensures
            n == piece_moves(*self, ctm, self.movers(ctm)).len(),
            n <= 64 * 64,
    {
        let ghost all = piece_moves(*self, ctm, self.movers(ctm));
        let mut n: u64 = 0;
        let mut us = Bitboard(self.movers_of(ctm, checks));
        proof {
            crate::bits::lemma_popcount_bound(us.0);
        }
        let ghost first = popcount(us.0);
        while us.0 != 0
            invariant
                ctm < 2,
                checks == self.check_count(),
                checks == 1 ==> block == self.block_mask(ctm),
                n + piece_moves(*self, ctm, us.0).len() == all.len(),
                n + 64 * popcount(us.0) <= 64 * first,
                first <= 64,
            decreases us.0,
        {
            proof {
                lemma_clear_lsb_smaller(us.0);
                lemma_popcount_clear_lsb(us.0);
            }
            let from = us.pop_lsb();
            let k = self.count_moves_from(ctm, from, checks, block);
            n += k;
        }
        n
    }

    /// Whether the king may castle over the squares of `path`, passing `pass`
    /// and landing on `land`.
    fn may_castle(&self, ctm: u8, right: u8, path: u64, pass: u8, land: u8) -> (b: bool)
        requires
            ctm < 2,
            pass < 64,
            land < 64,
        ensures
            b == (self.castling & right != 0 && self.occupied_mask() & path == 0
                && !self.attacked_with(ctm, pass, self.occupied_mask()) && !self.attacked_with(
                ctm,
                land,
                self.occupied_mask(),
            )),
    {
        let occ = self.occupied();
        self.castling & right != 0 && occ.0 & path == 0 && !self.is_attacked(
            ctm,
            Square(pass),
            occ,
        ) && !self.is_attacked(ctm, Square(land), occ)
    }

    /// Appends the castling moves.
    fn push_castles(&self, ctm: u8, checks: u32, list: &mut MoveList)
        requires
            ctm < 2,
            checks == self.check_count(),
            old(list)@.len() + self.castle_moves(ctm).len() <= MAX_MOVES,
        ensures
            final(list)@ == old(list)@ + self.castle_moves(ctm),
    {
        let ghost start = list@;
        if checks == 0 {
            if ctm == 1 {
                let short = self.may_castle(ctm, 1, WK_PATH, 5, 6);
                let long = self.may_castle(ctm, 2, WQ_PATH, 3, 2);
                if short {
                    list.push(Move::new_unchecked(4, 6, FLAG_WK_CASTLE));
                }
                if long {
                    list.push(Move::new_unchecked(4, 2, FLAG_WQ_CASTLE));
                }
            } else {
                let short = self.may_castle(ctm, 4, BK_PATH, 61, 62);
                let long = self.may_castle(ctm, 8, BQ_PATH, 59, 58);
                if short {
                    list.push(Move::new_unchecked(60, 62, FLAG_BK_CASTLE));
                }
                if long {
                    list.push(Move::new_unchecked(60, 58, FLAG_BQ_CASTLE));
                }
            }
        }
        proof {
            assert(list@ =~= start + self.castle_moves(ctm));
        }
    }

    /// The number of castling moves.
    fn count_castles(&self, ctm: u8, checks: u32) -> (n: u64)
        requires
            ctm < 2,
            checks == self.check_count(),
        ensures
            n == self.castle_moves(ctm).len(),
            n <= 2,
    {
        let mut n: u64 = 0;
        if checks == 0 {
            if ctm == 1 {
                if self.may_castle(ctm, 1, WK_PATH, 5, 6) {
                    n += 1;
                }
                if self.may_castle(ctm, 2, WQ_PATH, 3, 2) {
                    n += 1;
                }
            } else {
                if self.may_castle(ctm, 4, BK_PATH, 61, 62) {
                    n += 1;
                }
                if self.may_castle(ctm, 8, BQ_PATH, 59, 58) {
                    n += 1;
                }
            }
        }
        n
    }
}

impl Position {
    /// A single push ends on an empty square, one step from a pawn of the
    /// side to move.
    pub proof fn lemma_push_target(self, ctm: u8, t: u8)
        requires
            ctm < 2,
            bit(self.push_targets(ctm), t),
        ensures
            !bit(self.occupied_mask(), t),
            ctm == 0 ==> t + 8 < 64 && bit(self.own_pawns(ctm), (t + 8) as u8),
            ctm == 1 ==> t >= 8 && bit(self.own_pawns(ctm), (t - 8) as u8),
    {
        let raw = crate::movegen::pawns::single_pushes(
            self.own_pawns(ctm),
            !self.occupied_mask(),
            ctm,
            self.ortho_pin_mask,
            self.diago_pin_mask,
        );
        lemma_bit_ops(raw, self.block_mask(ctm), t);
        lemma_single_push_source(
            self.own_pawns(ctm),
            !self.occupied_mask(),
            ctm,
            self.ortho_pin_mask,
            self.diago_pin_mask,
            t,
        );
        lemma_bit_ops(self.occupied_mask(), 0, t);
    }

    /// A double push ends on an empty square, passes over an empty square
    /// and starts two steps back, on a pawn of the side to move.
    pub proof fn lemma_double_target(self, ctm: u8, t: u8)
        requires
            ctm < 2,
            bit(self.double_targets(ctm), t),
        ensures
            !bit(self.occupied_mask(), t),
            ctm == 0 ==> t + 16 < 64 && t + 8 >= 40 && bit(self.own_pawns(ctm), (t + 16) as u8)
                && !bit(self.occupied_mask(), (t + 8) as u8),
            ctm == 1 ==> t >= 16 && t - 8 < 24 && bit(self.own_pawns(ctm), (t - 16) as u8) && !bit(
                self.occupied_mask(),
                (t - 8) as u8,
            ),
    {
        let raw = crate::movegen::pawns::double_pushes(
            self.own_pawns(ctm),
            !self.occupied_mask(),
            ctm,
            self.ortho_pin_mask,
            self.diago_pin_mask,
        );
        lemma_bit_ops(raw, self.block_mask(ctm), t);
        lemma_double_push_source(
            self.own_pawns(ctm),
            !self.occupied_mask(),
            ctm,
            self.ortho_pin_mask,
            self.diago_pin_mask,
            t,
        );
        lemma_bit_ops(self.occupied_mask(), 0, t);
        if ctm == 0 {
            lemma_bit_ops(self.occupied_mask(), 0, (t + 8) as u8);
        } else {
            lemma_bit_ops(self.occupied_mask(), 0, (t - 8) as u8);
        }
    }

    /// A capture towards the a-file ends on an enemy piece that is no king
    /// and starts on a pawn of the side to move.
    pub proof fn lemma_left_target(self, ctm: u8, t: u8)
        requires
            ctm < 2,
            bit(self.left_targets(ctm), t),
        ensures
            bit(self.takeable(ctm), t),
            ctm == 0 ==> t + 9 < 64 && bit(self.own_pawns(ctm), (t + 9) as u8),
            ctm == 1 ==> t >= 7 && bit(self.own_pawns(ctm), (t - 7) as u8),
    {
        let raw = crate::movegen::pawns::left_attacks(
            self.own_pawns(ctm),
            self.takeable(ctm),
            ctm,
            self.ortho_pin_mask,
            self.diago_pin_mask,
        );
        lemma_bit_ops(raw, self.block_mask(ctm), t);
        lemma_left_attack_source(
            self.own_pawns(ctm),
            self.takeable(ctm),
            ctm,
            self.ortho_pin_mask,
            self.diago_pin_mask,
            t,
        );
    }

    /// A capture towards the h-file ends on an enemy piece that is no king
    /// and starts on a pawn of the side to move.
    pub proof fn lemma_right_target(self, ctm: u8, t: u8)
        requires
            ctm < 2,
            bit(self.right_targets(ctm), t),
        ensures
            bit(self.takeable(ctm), t),
            ctm == 0 ==> t + 7 < 64 && bit(self.own_pawns(ctm), (t + 7) as u8),
            ctm == 1 ==> t >= 9 && bit(self.own_pawns(ctm), (t - 9) as u8),
    {
        let raw = crate::movegen::pawns::right_attacks(
            self.own_pawns(ctm),
            self.takeable(ctm),
            ctm,
            self.ortho_pin_mask,
            self.diago_pin_mask,
        );
        lemma_bit_ops(raw, self.block_mask(ctm), t);
        lemma_right_attack_source(
            self.own_pawns(ctm),
            self.takeable(ctm),
            ctm,
            self.ortho_pin_mask,
            self.diago_pin_mask,
            t,
        );
    }

    /// The masks that pawn moves are generated from.
    fn pawn_targets(&self, ctm: u8, checks: u32, block: u64) -> (r: PawnTargets)
        requires
            ctm < 2,
            checks == self.check_count(),
            checks == 1 ==> block == self.block_mask(ctm),
        ensures
            r.promo == self.push_targets(ctm) & Self::last_rank(ctm),
            r.quiet == self.push_targets(ctm) ^ r.promo,
            r.double == self.double_targets(ctm),
            r.left_promo == self.left_targets(ctm) & Self::last_rank(ctm),
            r.left == self.left_targets(ctm) ^ r.left_promo,
            r.right_promo == self.right_targets(ctm) & Self::last_rank(ctm),
            r.right == self.right_targets(ctm) ^ r.right_promo,
    {
        let pawns = Bitboard(self.pieces[0] & self.colors[ctm as usize]);
        let empties = Bitboard(!self.occupied().0);
        let ortho = Bitboard(self.ortho_pin_mask);
        let diag = Bitboard(self.diago_pin_mask);
        let pushes = get_pawn_pushes_setwise(pawns, empties, ctm, ortho, diag);
        let takeable = Bitboard(self.colors[(1 - ctm) as usize] & !self.pieces[5]);
        let attacks = get_pawn_attacks_setwise(pawns, takeable, ctm, ortho, diag);
        let last = Bitboard::from_rank(7 * ctm).0;
        let single = if checks == 1 { pushes.0.0 & block } else { pushes.0.0 };
        let double = if checks == 1 { pushes.1.0 & block } else { pushes.1.0 };
        let left = if checks == 1 { attacks.0.0 & block } else { attacks.0.0 };
        let right = if checks == 1 { attacks.1.0 & block } else { attacks.1.0 };
        let promo = single & last;
        let left_promo = left & last;
        let right_promo = right & last;
        PawnTargets {
            quiet: single ^ promo,
            double,
            promo,
            left: left ^ left_promo,
            right: right ^ right_promo,
            left_promo,
            right_promo,
        }
    }

    /// Appends the pawn pushes.
    fn push_pawn_pushes(&self, ctm: u8, t: &PawnTargets, list: &mut MoveList)
        requires
            ctm < 2,
            t.promo == self.push_targets(ctm) & Self::last_rank(ctm),
            t.quiet == self.push_targets(ctm) ^ t.promo,
            t.double == self.double_targets(ctm),
            old(list)@.len() + self.pawn_pushes(ctm).len() <= MAX_MOVES,
        ensures
            final(list)@ == old(list)@ + self.pawn_pushes(ctm),
    {
        let ghost start = list@;
        let ghost single = self.push_targets(ctm);
        let forward = ctm == 0;
        proof {
            assert forall|s: u8| #[trigger] bit(t.quiet, s) implies s >= 8 || ctm == 0 by {
                lemma_bit_ops(single, t.promo, s);
                lemma_bit_ops(single, Self::last_rank(ctm), s);
                self.lemma_push_target(ctm, s);
            }
            assert forall|s: u8| #[trigger] bit(t.promo, s) implies s >= 8 || ctm == 0 by {
                lemma_bit_ops(single, Self::last_rank(ctm), s);
                self.lemma_push_target(ctm, s);
            }
            assert forall|s: u8| #[trigger] bit(t.double, s) implies s >= 16 || ctm == 0 by {
                self.lemma_double_target(ctm, s);
            }
            assert(self.pawn_pushes(ctm).len() == shifted_moves(
                t.quiet,
                push_back(ctm),
                FLAG_NORMAL,
            ).len() + shifted_moves(t.double, 2 * push_back(ctm), FLAG_DOUBLE_PUSH).len()
                + promotions(t.promo, push_back(ctm)).len());
        }
        push_shifted(list, t.quiet, forward, 8, FLAG_NORMAL);
        push_shifted(list, t.double, forward, 16, FLAG_DOUBLE_PUSH);
        push_promotions(list, t.promo, forward, 8);
        proof {
            assert(list@ =~= start + self.pawn_pushes(ctm));
        }
    }

    /// Appends the pawn captures.
    fn push_pawn_captures(&self, ctm: u8, t: &PawnTargets, list: &mut MoveList)
        requires
            ctm < 2,
            t.left_promo == self.left_targets(ctm) & Self::last_rank(ctm),
            t.left == self.left_targets(ctm) ^ t.left_promo,
            t.right_promo == self.right_targets(ctm) & Self::last_rank(ctm),
            t.right == self.right_targets(ctm) ^ t.right_promo,
            old(list)@.len() + self.pawn_captures(ctm).len() <= MAX_MOVES,
        ensures
            final(list)@ == old(list)@ + self.pawn_captures(ctm),
    {
        let ghost start = list@;
        let ghost left = self.left_targets(ctm);
        let ghost right = self.right_targets(ctm);
        let forward = ctm == 0;
        proof {
            assert forall|s: u8| #[trigger] bit(t.left, s) implies s >= 7 || ctm == 0 by {
                lemma_bit_ops(left, t.left_promo, s);
                lemma_bit_ops(left, Self::last_rank(ctm), s);
                self.lemma_left_target(ctm, s);
            }
            assert forall|s: u8| #[trigger] bit(t.left_promo, s) implies s >= 7 || ctm == 0 by {
                lemma_bit_ops(left, Self::last_rank(ctm), s);
                self.lemma_left_target(ctm, s);
            }
            assert forall|s: u8| #[trigger] bit(t.right, s) implies s >= 9 || ctm == 0 by {
                lemma_bit_ops(right, t.right_promo, s);
                lemma_bit_ops(right, Self::last_rank(ctm), s);
                self.lemma_right_target(ctm, s);
            }
            assert forall|s: u8| #[trigger] bit(t.right_promo, s) implies s >= 9 || ctm == 0 by {
                lemma_bit_ops(right, Self::last_rank(ctm), s);
                self.lemma_right_target(ctm, s);
            }
            assert(self.pawn_captures(ctm).len() == shifted_moves(
                t.left,
                left_back(ctm),
                FLAG_NORMAL,
            ).len() + shifted_moves(t.right, right_back(ctm), FLAG_NORMAL).len() + promotions(
                t.left_promo,
                left_back(ctm),
            ).len() + promotions(t.right_promo, right_back(ctm)).len());
        }
        let left_step: u8 = if forward { 9 } else { 7 };
        let right_step: u8 = if forward { 7 } else { 9 };
        push_shifted(list, t.left, forward, left_step, FLAG_NORMAL);
        push_shifted(list, t.right, forward, right_step, FLAG_NORMAL);
        push_promotions(list, t.left_promo, forward, left_step);
        push_promotions(list, t.right_promo, forward, right_step);
        proof {
            assert(list@ =~= start + self.pawn_captures(ctm));
        }
    }

    /// Whether the pawn on `taker` may capture en passant.
    fn en_passant_allowed(&self, ctm: u8, taker: u8) -> (b: bool)
        requires
            ctm < 2,
            taker < 64,
            8 <= self.ep_index.0 < 56,
            self.king_sqs[ctm as int] < 64,
        ensures
            b == self.en_passant_safe(ctm, taker),
    {
        let ep = self.ep_index.0;
        let opp = 1 - ctm;
        let passed = if ctm == 0 { ep + 8 } else { ep - 8 };
        let occ = Bitboard(
            self.occupied().0 ^ (1u64 << (taker as u64)) ^ (1u64 << (ep as u64)) ^ (1u64 << (
            passed as u64)),
        );
        let king = Square(self.king_sqs[ctm as usize]);
        let queens = self.colored_piece(QUEEN, opp).0;
        get_rook_attacks(king, occ).0 & (queens | self.colored_piece(ROOK, opp).0) == 0
            && get_bishop_attacks(king, occ).0 & (queens | self.colored_piece(BISHOP, opp).0) == 0
    }

    /// The pawns that attack the en-passant square and are not pinned along
    /// a rank or file.
    fn en_passant_takers_of(&self, ctm: u8) -> (m: u64)
        requires
            ctm < 2,
            self.ep_index.0 < 64,
        ensures
            m == self.en_passant_takers(ctm),
    {
        get_pawn_attacks_lookup(self.ep_index, 1 - ctm).0 & (self.pieces[0]
            & self.colors[ctm as usize]) & !self.ortho_pin_mask
    }

    /// Appends the en-passant captures.
    fn push_en_passant(&self, ctm: u8, list: &mut MoveList)
        requires
            ctm < 2,
            self.ep_index.0 == NO_SQUARE || 8 <= self.ep_index.0 < 56,
            self.king_sqs[ctm as int] < 64,
            old(list)@.len() + self.en_passant_moves(ctm).len() <= MAX_MOVES,
        ensures
            final(list)@ == old(list)@ + self.en_passant_moves(ctm),
    {
        let ghost start = list@;
        if self.ep_index.0 != NO_SQUARE {
            let ghost all = en_passant_from(*self, ctm, self.en_passant_takers(ctm));
            let mut left = Bitboard(self.en_passant_takers_of(ctm));
            while left.0 != 0
                invariant
                    ctm < 2,
                    8 <= self.ep_index.0 < 56,
                    self.king_sqs[ctm as int] < 64,
                    list@ + en_passant_from(*self, ctm, left.0) == start + all,
                    start.len() + all.len() <= MAX_MOVES,
                decreases left.0,
            {
                let ghost before = left.0;
                let ghost held = list@;
                proof {
                    lemma_clear_lsb_smaller(left.0);
                }
                let taker = left.pop_lsb();
                if self.en_passant_allowed(ctm, taker) {
                    assert(en_passant_from(*self, ctm, before).len() >= 1);
                    assert((held + en_passant_from(*self, ctm, before)).len() == (start
                        + all).len());
                    list.push(Move::new_unchecked(taker, self.ep_index.0, FLAG_EN_PASSANT));
                    proof {
                        assert(list@ + en_passant_from(*self, ctm, left.0) =~= held
                            + en_passant_from(*self, ctm, before));
                    }
                }
            }
            proof {
                assert(list@ + en_passant_from(*self, ctm, 0) =~= list@);
            }
        } else {
            proof {
                assert(list@ =~= start + self.en_passant_moves(ctm));
            }
        }
    }

    /// The number of en-passant captures.
    fn count_en_passant(&self, ctm: u8) -> (n: u64)
        requires
            ctm < 2,
            self.ep_index.0 == NO_SQUARE || 8 <= self.ep_index.0 < 56,
            self.king_sqs[ctm as int] < 64,
        ensures
            n == self.en_passant_moves(ctm).len(),
            n <= 64,
    {
        let mut n: u64 = 0;
        if self.ep_index.0 != NO_SQUARE {
            let ghost all = en_passant_from(*self, ctm, self.en_passant_takers(ctm));
            let mut left = Bitboard(self.en_passant_takers_of(ctm));
            let ghost first = popcount(left.0);
            proof {
                crate::bits::lemma_popcount_bound(left.0);
            }
            while left.0 != 0
                invariant
                    ctm < 2,
                    8 <= self.ep_index.0 < 56,
                    self.king_sqs[ctm as int] < 64,
                    n + en_passant_from(*self, ctm, left.0).len() == all.len(),
                    n + popcount(left.0) <= first <= 64,
                decreases left.0,
            {
                proof {
                    lemma_clear_lsb_smaller(left.0);
                    lemma_popcount_clear_lsb(left.0);
                }
                let taker = left.pop_lsb();
                if self.en_passant_allowed(ctm, taker) {
                    n += 1;
                }
            }
        }
        n
    }

    /// What move generation needs of a position: a side to move, its king
    /// on the board, and an en-passant square, if any, with ranks on both
    /// sides of it.
    pub open spec fn generable(self, ctm: u8) -> bool {
        &&& ctm < 2
        &&& self.king_sqs[ctm as int] < 64
        &&& self.ep_index.0 == NO_SQUARE || 8 <= self.ep_index.0 < 56
    }

    /// Appends the pawn moves.
    fn push_pawn_moves(&self, ctm: u8, checks: u32, block: u64, list: &mut MoveList)
        requires
            self.generable(ctm),
            checks == self.check_count(),
            checks == 1 ==> block == self.block_mask(ctm),
            old(list)@.len() + self.pawn_moves(ctm).len() <= MAX_MOVES,
        ensures
            final(list)@ == old(list)@ + self.pawn_moves(ctm),
    {
        let ghost start = list@;
        if checks != 2 {
            let ghost a = self.pawn_pushes(ctm);
            let ghost b = self.pawn_captures(ctm);
            let ghost c = self.en_passant_moves(ctm);
            proof {
                assert(self.pawn_moves(ctm) == a + b + c);
                assert((a + b + c).len() == a.len() + b.len() + c.len());
            }
            let targets = self.pawn_targets(ctm, checks, block);
            self.push_pawn_pushes(ctm, &targets, list);
            self.push_pawn_captures(ctm, &targets, list);
            self.push_en_passant(ctm, list);
            proof {
                assert(list@ =~= start + (a + b + c));
            }
        } else {
            proof {
                assert(list@ =~= start + self.pawn_moves(ctm));
            }
        }
    }

    /// Appends the legal moves with `ctm` to move to `list`.
    pub fn generate(&self, ctm: u8, list: &mut MoveList)
        requires
            self.generable(ctm),
            old(list)@.len() + self.legal_moves(ctm).len() <= MAX_MOVES,
        ensures
            final(list)@ == old(list)@ + self.legal_moves(ctm),
    {
        let ghost start = list@;
        let ghost a = self.castle_moves(ctm);
        let ghost b = piece_moves(*self, ctm, self.movers(ctm));
        let ghost c = self.pawn_moves(ctm);
        proof {
            reveal(Position::legal_moves);
            assert(self.legal_moves(ctm) == a + b + c);
            assert((a + b + c).len() == a.len() + b.len() + c.len());
        }
        let (checks, block) = self.check_state(ctm);
        self.push_castles(ctm, checks, list);
        self.push_piece_moves(ctm, checks, block, list);
        self.push_pawn_moves(ctm, checks, block, list);
        proof {
            assert(list@ =~= start + (a + b + c));
        }
    }

    /// The number of legal moves with `ctm` to move.
    pub fn count_moves(&self, ctm: u8) -> (n: u64)
        requires
            self.generable(ctm),
        ensures
            n == self.legal_moves(ctm).len(),
    {
        proof {
            reveal(Position::legal_moves);
        }
        let (checks, block) = self.check_state(ctm);
        let mut n = self.count_castles(ctm, checks);
        n += self.count_piece_moves(ctm, checks, block);
        if checks != 2 {
            let t = self.pawn_targets(ctm, checks, block);
            proof {
                lemma_shifted_moves_len(t.quiet, push_back(ctm), FLAG_NORMAL);
                lemma_shifted_moves_len(t.double, 2 * push_back(ctm), FLAG_DOUBLE_PUSH);
                lemma_promotions_len(t.promo, push_back(ctm));
                lemma_shifted_moves_len(t.left, left_back(ctm), FLAG_NORMAL);
                lemma_shifted_moves_len(t.right, right_back(ctm), FLAG_NORMAL);
                lemma_promotions_len(t.left_promo, left_back(ctm));
                lemma_promotions_len(t.right_promo, right_back(ctm));
            }
            n += Bitboard(t.quiet).popcount() as u64;
            n += Bitboard(t.double).popcount() as u64;
            n += Bitboard(t.promo).popcount() as u64 * 4;
            n += Bitboard(t.left).popcount() as u64;
            n += Bitboard(t.right).popcount() as u64;
            n += Bitboard(t.left_promo).popcount() as u64 * 4;
            n += Bitboard(t.right_promo).popcount() as u64 * 4;
            n += self.count_en_passant(ctm);
        }
        n
    }
}

impl Board {
    /// Appends the legal moves of the current position to `list`, which must
    /// have room for them.
    pub fn get_moves(&self, list: &mut MoveList)
        requires
            self.wf(),
            old(list)@.len() + self.legal_moves().len() <= MAX_MOVES,
        ensures
            final(list)@ == old(list)@ + self.legal_moves(),
    {
        self.current_state().generate(self.ctm, list);
    }

    /// The number of legal moves of the current position.
    pub fn get_move_count(&self) -> (n: u64)
        requires
            self.wf(),
        ensures
            n == self.legal_moves().len(),
    {
        self.current_state().count_moves(self.ctm)
    }
}

} // verus!
