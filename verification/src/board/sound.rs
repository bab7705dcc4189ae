//! Every legal move can be made: it moves a piece of the side to move to a
//! square it may stand on, and what its flag says is so on the board.

use vstd::prelude::*;
use crate::bits::{bit, clear_lsb, lemma_bit_ops, lemma_clear_lsb_bit, lemma_clear_lsb_smaller, lemma_lsb};
use crate::board::legal::{
    en_passant_from, left_back, moves_to, piece_moves, promotions, push_back, right_back,
    safe_king_moves, shifted_moves, BK_PATH, BQ_PATH, WK_PATH, WQ_PATH,
};
use crate::board::position::Position;
use crate::types::moves::{
    lemma_pack, pack, Move, FLAG_DOUBLE_PUSH, FLAG_EN_PASSANT, FLAG_KNIGHT_PROMO, FLAG_NORMAL,
    FLAG_QUEEN_PROMO,
};

verus! {

/// A member of a joined list is a member of one of its parts.
pub proof fn lemma_in_concat<T>(a: Seq<T>, b: Seq<T>, x: T)
    requires
        (a + b).contains(x),
    ensures
        a.contains(x) || b.contains(x),
{
    let i = choose|i: int| 0 <= i < (a + b).len() && (a + b)[i] == x;
    if i < a.len() {
        assert(a[i] == x);
    } else {
        assert(b[i - a.len()] == x);
    }
}

/// A move of `moves_to` goes from its origin to one of the targets.
pub proof fn lemma_moves_to_member(from: u8, targets: u64, flag: u8, m: Move)
    requires
        moves_to(from, targets, flag).contains(m),
    ensures
        exists|to: u8| bit(targets, to) && m == Move(pack(from, to, flag)),
    decreases targets,
{
    if targets == 0 {
        assert(moves_to(from, targets, flag).len() == 0);
    } else {
        lemma_clear_lsb_smaller(targets);
        lemma_lsb(targets);
        let head = seq![Move(pack(from, crate::bits::lsb(targets), flag))];
        lemma_in_concat(head, moves_to(from, clear_lsb(targets), flag), m);
        if head.contains(m) {
            assert(bit(targets, crate::bits::lsb(targets)));
        } else {
            lemma_moves_to_member(from, clear_lsb(targets), flag, m);
            let to = choose|to: u8| bit(clear_lsb(targets), to) && m == Move(pack(from, to, flag));
            lemma_clear_lsb_bit(targets, to);
            assert(bit(targets, to));
        }
    }
}

/// A move of `shifted_moves` goes to one of the targets.
pub proof fn lemma_shifted_member(targets: u64, delta: int, flag: u8, m: Move)
    requires
        shifted_moves(targets, delta, flag).contains(m),
    ensures
        exists|to: u8| bit(targets, to) && m == Move(pack((to + delta) as u8, to, flag)),
    decreases targets,
{
    if targets == 0 {
        assert(shifted_moves(targets, delta, flag).len() == 0);
    } else {
        lemma_clear_lsb_smaller(targets);
        lemma_lsb(targets);
        let t0 = crate::bits::lsb(targets);
        let head = seq![Move(pack((t0 + delta) as u8, t0, flag))];
        lemma_in_concat(head, shifted_moves(clear_lsb(targets), delta, flag), m);
        if head.contains(m) {
            assert(bit(targets, t0));
        } else {
            lemma_shifted_member(clear_lsb(targets), delta, flag, m);
            let to = choose|to: u8|
                bit(clear_lsb(targets), to) && m == Move(pack((to + delta) as u8, to, flag));
            lemma_clear_lsb_bit(targets, to);
            assert(bit(targets, to));
        }
    }
}

/// A move of `promotions` goes to one of the targets with a promotion flag.
pub proof fn lemma_promotions_member(targets: u64, delta: int, m: Move)
    requires
        promotions(targets, delta).contains(m),
    ensures
        exists|to: u8, flag: u8|
            bit(targets, to) && FLAG_KNIGHT_PROMO <= flag <= FLAG_QUEEN_PROMO && m == Move(
                #[trigger] pack((to + delta) as u8, to, flag),
            ),
    decreases targets,
{
    if targets == 0 {
        assert(promotions(targets, delta).len() == 0);
    } else {
        lemma_clear_lsb_smaller(targets);
        lemma_lsb(targets);
        let t0 = crate::bits::lsb(targets);
        let f0 = (t0 + delta) as u8;
        let head = seq![
            Move(pack(f0, t0, 7)),
            Move(pack(f0, t0, 8)),
            Move(pack(f0, t0, 9)),
            Move(pack(f0, t0, 10)),
        ];
        lemma_in_concat(head, promotions(clear_lsb(targets), delta), m);
        if head.contains(m) {
            let i = choose|i: int| 0 <= i < head.len() && head[i] == m;
            assert(bit(targets, t0));
            if i == 0 {
                assert(m == Move(pack((t0 + delta) as u8, t0, 7)));
            } else if i == 1 {
                assert(m == Move(pack((t0 + delta) as u8, t0, 8)));
            } else if i == 2 {
                assert(m == Move(pack((t0 + delta) as u8, t0, 9)));
            } else {
                assert(m == Move(pack((t0 + delta) as u8, t0, 10)));
            }
        } else {
            lemma_promotions_member(clear_lsb(targets), delta, m);
            let (to, flag) = choose|to: u8, flag: u8|
                bit(clear_lsb(targets), to) && FLAG_KNIGHT_PROMO <= flag <= FLAG_QUEEN_PROMO && m
                    == Move(#[trigger] pack((to + delta) as u8, to, flag));
            lemma_clear_lsb_bit(targets, to);
            assert(bit(targets, to) && m == Move(pack((to + delta) as u8, to, flag)));
        }
    }
}

/// A king's move goes from its origin to one of the targets.
pub proof fn lemma_safe_king_member(p: Position, ctm: u8, from: u8, targets: u64, occ: u64, m: Move)
    requires
        safe_king_moves(p, ctm, from, targets, occ).contains(m),
    ensures
        exists|to: u8| bit(targets, to) && m == Move(pack(from, to, FLAG_NORMAL)),
    decreases targets,
{
    if targets == 0 {
        assert(safe_king_moves(p, ctm, from, targets, occ).len() == 0);
    } else {
        lemma_clear_lsb_smaller(targets);
        lemma_lsb(targets);
        let t0 = crate::bits::lsb(targets);
        let rest = safe_king_moves(p, ctm, from, clear_lsb(targets), occ);
        let head = seq![Move(pack(from, t0, FLAG_NORMAL))];
        if !p.attacked_with(ctm, t0, occ) {
            lemma_in_concat(head, rest, m);
        }
        if !p.attacked_with(ctm, t0, occ) && head.contains(m) {
            assert(bit(targets, t0));
        } else {
            lemma_safe_king_member(p, ctm, from, clear_lsb(targets), occ, m);
            let to = choose|to: u8|
                bit(clear_lsb(targets), to) && m == Move(pack(from, to, FLAG_NORMAL));
            lemma_clear_lsb_bit(targets, to);
            assert(bit(targets, to));
        }
    }
}

/// An en-passant capture is made by one of the takers.
pub proof fn lemma_en_passant_member(p: Position, ctm: u8, takers: u64, m: Move)
    requires
        en_passant_from(p, ctm, takers).contains(m),
    ensures
        exists|taker: u8|
            bit(takers, taker) && m == Move(pack(taker, p.ep_index.0, FLAG_EN_PASSANT)),
    decreases takers,
{
    if takers == 0 {
        assert(en_passant_from(p, ctm, takers).len() == 0);
    } else {
        lemma_clear_lsb_smaller(takers);
        lemma_lsb(takers);
        let t0 = crate::bits::lsb(takers);
        let rest = en_passant_from(p, ctm, clear_lsb(takers));
        let head = seq![Move(pack(t0, p.ep_index.0, FLAG_EN_PASSANT))];
        if p.en_passant_safe(ctm, t0) {
            lemma_in_concat(head, rest, m);
        }
        if p.en_passant_safe(ctm, t0) && head.contains(m) {
            assert(bit(takers, t0));
        } else {
            lemma_en_passant_member(p, ctm, clear_lsb(takers), m);
            let taker = choose|taker: u8|
                bit(clear_lsb(takers), taker) && m == Move(
                    pack(taker, p.ep_index.0, FLAG_EN_PASSANT),
                );
            lemma_clear_lsb_bit(takers, taker);
            assert(bit(takers, taker));
        }
    }
}

/// A piece move is a move of one of the pieces visited.
pub proof fn lemma_piece_moves_member(p: Position, ctm: u8, us: u64, m: Move)
    requires
        piece_moves(p, ctm, us).contains(m),
    ensures
        exists|from: u8| bit(us, from) && #[trigger] p.moves_from(ctm, from).contains(m),
    decreases us,
{
    if us == 0 {
        assert(piece_moves(p, ctm, us).len() == 0);
    } else {
        lemma_clear_lsb_smaller(us);
        lemma_lsb(us);
        let f0 = crate::bits::lsb(us);
        lemma_in_concat(p.moves_from(ctm, f0), piece_moves(p, ctm, clear_lsb(us)), m);
        if p.moves_from(ctm, f0).contains(m) {
            assert(bit(us, f0));
        } else {
            lemma_piece_moves_member(p, ctm, clear_lsb(us), m);
            let from = choose|from: u8|
                bit(clear_lsb(us), from) && #[trigger] p.moves_from(ctm, from).contains(m);
            lemma_clear_lsb_bit(us, from);
            assert(bit(us, from));
        }
    }
}

/// A set that shares no square with one of the castling paths holds none of
/// the squares of that path.
pub proof fn lemma_paths(x: u64)
    ensures
        x & WK_PATH == 0 ==> !bit(x, 5) && !bit(x, 6),
        x & WQ_PATH == 0 ==> !bit(x, 1) && !bit(x, 2) && !bit(x, 3),
        x & BK_PATH == 0 ==> !bit(x, 61) && !bit(x, 62),
        x & BQ_PATH == 0 ==> !bit(x, 57) && !bit(x, 58) && !bit(x, 59),
{
    assert((x & 0x60 == 0 ==> (x >> 5) & 1 != 1 && (x >> 6) & 1 != 1) && (x & 0xe == 0 ==> (x
        >> 1) & 1 != 1 && (x >> 2) & 1 != 1 && (x >> 3) & 1 != 1) && (x & 0x6000_0000_0000_0000
        == 0 ==> (x >> 61) & 1 != 1 && (x >> 62) & 1 != 1) && (x & 0x0e00_0000_0000_0000 == 0 ==> (
    x >> 57) & 1 != 1 && (x >> 58) & 1 != 1 && (x >> 59) & 1 != 1)) by (bit_vector);
}

impl Position {
    /// A square in the set of a side holds a piece of that side.
    pub proof fn lemma_own_square(self, c: u8, sq: u8)
        requires
            self.boards_agree(),
            c < 2,
            bit(self.colors[c as int], sq),
        ensures
            crate::types::piece::is_piece_code(self.mailbox[sq as int]),
            self.mailbox[sq as int] / 8 == c,
    {
        assert(self.square_agrees(sq));
    }

    /// An unoccupied square holds the empty code.
    pub proof fn lemma_empty_square(self, sq: u8)
        requires
            self.boards_agree(),
            sq < 64,
            !bit(self.occupied_mask(), sq),
        ensures
            self.mailbox[sq as int] == crate::types::piece::NO_PIECE,
    {
        assert(self.square_agrees(sq));
        lemma_bit_ops(self.colors[0], self.colors[1], sq);
    }

    /// A square that is not barred is empty or holds an enemy piece other
    /// than the king.
    pub proof fn lemma_open_square(self, ctm: u8, sq: u8)
        requires
            self.boards_agree(),
            ctm < 2,
            sq < 64,
            !bit(self.barred(ctm), sq),
        ensures
            self.mailbox[sq as int] == crate::types::piece::NO_PIECE || (
            crate::types::piece::is_piece_code(self.mailbox[sq as int]) && self.mailbox[sq as int]
                / 8 != ctm && self.mailbox[sq as int] % 8 != 5),
    {
        assert(self.square_agrees(sq));
        lemma_bit_ops(self.colors[ctm as int], self.pieces[5], sq);
    }

    /// A square in the set of own pawns holds a pawn of the side to move.
    pub proof fn lemma_pawn_square(self, ctm: u8, sq: u8)
        requires
            self.boards_agree(),
            ctm < 2,
            bit(self.own_pawns(ctm), sq),
        ensures
            self.mailbox[sq as int] == crate::types::piece::piece_code(0, ctm),
    {
        assert(self.square_agrees(sq));
        lemma_bit_ops(self.pieces[0], self.colors[ctm as int], sq);
    }

    /// A square that may be taken holds an enemy piece other than the king.
    pub proof fn lemma_takeable_square(self, ctm: u8, sq: u8)
        requires
            self.boards_agree(),
            ctm < 2,
            bit(self.takeable(ctm), sq),
        ensures
            crate::types::piece::is_piece_code(self.mailbox[sq as int]),
            self.mailbox[sq as int] / 8 != ctm,
            self.mailbox[sq as int] % 8 != 5,
    {
        assert(self.square_agrees(sq));
        lemma_bit_ops(self.colors[1 - ctm], !self.pieces[5], sq);
        lemma_bit_ops(self.pieces[5], 0, sq);
    }

    /// Every castling move can be made.
    pub proof fn lemma_castle_accepted(self, ctm: u8, m: Move)
        requires
            self.wf(ctm),
            self.castle_moves(ctm).contains(m),
        ensures
            self.accepts(ctm, m),
    {
        let occ = self.occupied_mask();
        lemma_paths(occ);
        lemma_pack(4, 6, 1);
        lemma_pack(4, 2, 2);
        lemma_pack(60, 62, 3);
        lemma_pack(60, 58, 4);
        if self.check_count() != 0 {
            assert(self.castle_moves(ctm).len() == 0);
        } else if ctm == 1 {
            let a: Seq<Move> = if self.castling & 1 != 0 && occ & WK_PATH == 0
                && !self.attacked_with(ctm, 5, occ) && !self.attacked_with(ctm, 6, occ) {
                seq![Move(pack(4, 6, 1))]
            } else {
                Seq::empty()
            };
            let b: Seq<Move> = if self.castling & 2 != 0 && occ & WQ_PATH == 0
                && !self.attacked_with(ctm, 3, occ) && !self.attacked_with(ctm, 2, occ) {
                seq![Move(pack(4, 2, 2))]
            } else {
                Seq::empty()
            };
            assert(self.castle_moves(ctm) == a + b);
            lemma_in_concat(a, b, m);
            if a.contains(m) {
                assert(a.len() == 1 && a[0] == m);
                self.lemma_empty_square(5);
                self.lemma_empty_square(6);
            } else {
                assert(b.len() == 1 && b[0] == m);
                self.lemma_empty_square(1);
                self.lemma_empty_square(2);
                self.lemma_empty_square(3);
            }
        } else {
            let a: Seq<Move> = if self.castling & 4 != 0 && occ & BK_PATH == 0
                && !self.attacked_with(ctm, 61, occ) && !self.attacked_with(ctm, 62, occ) {
                seq![Move(pack(60, 62, 3))]
            } else {
                Seq::empty()
            };
            let b: Seq<Move> = if self.castling & 8 != 0 && occ & BQ_PATH == 0
                && !self.attacked_with(ctm, 59, occ) && !self.attacked_with(ctm, 58, occ) {
                seq![Move(pack(60, 58, 4))]
            } else {
                Seq::empty()
            };
            assert(self.castle_moves(ctm) == a + b);
            lemma_in_concat(a, b, m);
            if a.contains(m) {
                assert(a.len() == 1 && a[0] == m);
                self.lemma_empty_square(61);
                self.lemma_empty_square(62);
            } else {
                assert(b.len() == 1 && b[0] == m);
                self.lemma_empty_square(57);
                self.lemma_empty_square(58);
                self.lemma_empty_square(59);
            }
        }
    }

    /// Every move of a piece that move generation visits can be made.
    pub proof fn lemma_piece_accepted(self, ctm: u8, from: u8, m: Move)
        requires
            self.wf(ctm),
            bit(self.movers(ctm), from),
            self.moves_from(ctm, from).contains(m),
        ensures
            self.accepts(ctm, m),
    {
        lemma_bit_ops(self.colors[ctm as int], self.pieces[5], from);
        self.lemma_own_square(ctm, from);
        let targets = self.targets_from(ctm, from);
        if self.mailbox[from as int] % 8 == 5 {
            lemma_safe_king_member(
                self,
                ctm,
                from,
                targets,
                self.occupied_mask() ^ crate::bits::sq_bit(from),
                m,
            );
        } else {
            lemma_moves_to_member(from, targets, FLAG_NORMAL, m);
        }
        let to = choose|to: u8| bit(targets, to) && m == Move(pack(from, to, FLAG_NORMAL));
        let open = self.attack_from(ctm, from) & !self.barred(ctm);
        lemma_bit_ops(open, self.block_mask(ctm), to);
        lemma_bit_ops(self.attack_from(ctm, from), !self.barred(ctm), to);
        lemma_bit_ops(self.barred(ctm), 0, to);
        self.lemma_open_square(ctm, to);
        lemma_pack(from, to, FLAG_NORMAL);
    }
}

impl Position {
    /// Every pawn push can be made.
    pub proof fn lemma_push_accepted(self, ctm: u8, m: Move)
        requires
            self.wf(ctm),
            self.pawn_pushes(ctm).contains(m),
        ensures
            self.accepts(ctm, m),
    {
        let single = self.push_targets(ctm);
        let last = Self::last_rank(ctm);
        let promo = single & last;
        let quiet = single ^ promo;
        let a = shifted_moves(quiet, push_back(ctm), FLAG_NORMAL);
        let b = shifted_moves(self.double_targets(ctm), 2 * push_back(ctm), FLAG_DOUBLE_PUSH);
        let c = promotions(promo, push_back(ctm));
        lemma_in_concat(a + b, c, m);
        if (a + b).contains(m) {
            lemma_in_concat(a, b, m);
        }
        if a.contains(m) {
            lemma_shifted_member(quiet, push_back(ctm), FLAG_NORMAL, m);
            let to = choose|to: u8|
                bit(quiet, to) && m == Move(pack((to + push_back(ctm)) as u8, to, FLAG_NORMAL));
            lemma_bit_ops(single, promo, to);
            lemma_bit_ops(single, last, to);
            self.lemma_push_target(ctm, to);
            let from = (to + push_back(ctm)) as u8;
            self.lemma_pawn_square(ctm, from);
            self.lemma_empty_square(to);
            lemma_pack(from, to, FLAG_NORMAL);
        } else if b.contains(m) {
            lemma_shifted_member(
                self.double_targets(ctm),
                2 * push_back(ctm),
                FLAG_DOUBLE_PUSH,
                m,
            );
            let to = choose|to: u8|
                bit(self.double_targets(ctm), to) && m == Move(
                    pack((to + 2 * push_back(ctm)) as u8, to, FLAG_DOUBLE_PUSH),
                );
            self.lemma_double_target(ctm, to);
            let from = (to + 2 * push_back(ctm)) as u8;
            self.lemma_pawn_square(ctm, from);
            self.lemma_empty_square(to);
            self.lemma_empty_square((to + push_back(ctm)) as u8);
            lemma_pack(from, to, FLAG_DOUBLE_PUSH);
        } else {
            lemma_promotions_member(promo, push_back(ctm), m);
            let (to, flag) = choose|to: u8, flag: u8|
                bit(promo, to) && FLAG_KNIGHT_PROMO <= flag <= FLAG_QUEEN_PROMO && m == Move(
                    #[trigger] pack((to + push_back(ctm)) as u8, to, flag),
                );
            lemma_bit_ops(single, last, to);
            self.lemma_push_target(ctm, to);
            let from = (to + push_back(ctm)) as u8;
            self.lemma_pawn_square(ctm, from);
            self.lemma_empty_square(to);
            lemma_pack(from, to, flag);
        }
    }

    /// Every pawn capture onto `targets`, a part of the captures towards one
    /// side, can be made.
    proof fn lemma_capture_accepted(self, ctm: u8, left: bool, to: u8, flag: u8)
        requires
            self.wf(ctm),
            bit(if left { self.left_targets(ctm) } else { self.right_targets(ctm) }, to),
            flag == FLAG_NORMAL || FLAG_KNIGHT_PROMO <= flag <= FLAG_QUEEN_PROMO,
        ensures
            self.accepts(
                ctm,
                Move(
                    pack(
                        (to + if left { left_back(ctm) } else { right_back(ctm) }) as u8,
                        to,
                        flag,
                    ),
                ),
            ),
    {
        let back = if left { left_back(ctm) } else { right_back(ctm) };
        if left {
            self.lemma_left_target(ctm, to);
        } else {
            self.lemma_right_target(ctm, to);
        }
        let from = (to + back) as u8;
        self.lemma_pawn_square(ctm, from);
        self.lemma_takeable_square(ctm, to);
        lemma_pack(from, to, flag);
    }

    /// Every pawn capture can be made.
    pub proof fn lemma_captures_accepted(self, ctm: u8, m: Move)
        requires
            self.wf(ctm),
            self.pawn_captures(ctm).contains(m),
        ensures
            self.accepts(ctm, m),
    {
        let left = self.left_targets(ctm);
        let right = self.right_targets(ctm);
        let last = Self::last_rank(ctm);
        let lp = left & last;
        let rp = right & last;
        let a = shifted_moves(left ^ lp, left_back(ctm), FLAG_NORMAL);
        let b = shifted_moves(right ^ rp, right_back(ctm), FLAG_NORMAL);
        let c = promotions(lp, left_back(ctm));
        let d = promotions(rp, right_back(ctm));
        lemma_in_concat(a + b + c, d, m);
        if (a + b + c).contains(m) {
            lemma_in_concat(a + b, c, m);
            if (a + b).contains(m) {
                lemma_in_concat(a, b, m);
            }
        }
        if a.contains(m) {
            lemma_shifted_member(left ^ lp, left_back(ctm), FLAG_NORMAL, m);
            let to = choose|to: u8|
                bit(left ^ lp, to) && m == Move(pack((to + left_back(ctm)) as u8, to, FLAG_NORMAL));
            lemma_bit_ops(left, lp, to);
            lemma_bit_ops(left, last, to);
            self.lemma_capture_accepted(ctm, true, to, FLAG_NORMAL);
        } else if b.contains(m) {
            lemma_shifted_member(right ^ rp, right_back(ctm), FLAG_NORMAL, m);
            let to = choose|to: u8|
                bit(right ^ rp, to) && m == Move(
                    pack((to + right_back(ctm)) as u8, to, FLAG_NORMAL),
                );
            lemma_bit_ops(right, rp, to);
            lemma_bit_ops(right, last, to);
            self.lemma_capture_accepted(ctm, false, to, FLAG_NORMAL);
        } else if c.contains(m) {
            lemma_promotions_member(lp, left_back(ctm), m);
            let (to, flag) = choose|to: u8, flag: u8|
                bit(lp, to) && FLAG_KNIGHT_PROMO <= flag <= FLAG_QUEEN_PROMO && m == Move(
                    #[trigger] pack((to + left_back(ctm)) as u8, to, flag),
                );
            lemma_bit_ops(left, last, to);
            self.lemma_capture_accepted(ctm, true, to, flag);
        } else {
            lemma_promotions_member(rp, right_back(ctm), m);
            let (to, flag) = choose|to: u8, flag: u8|
                bit(rp, to) && FLAG_KNIGHT_PROMO <= flag <= FLAG_QUEEN_PROMO && m == Move(
                    #[trigger] pack((to + right_back(ctm)) as u8, to, flag),
                );
            lemma_bit_ops(right, last, to);
            self.lemma_capture_accepted(ctm, false, to, flag);
        }
    }

    /// Every en-passant capture can be made.
    pub proof fn lemma_en_passant_accepted(self, ctm: u8, m: Move)
        requires
            self.wf(ctm),
            self.en_passant_moves(ctm).contains(m),
        ensures
            self.accepts(ctm, m),
    {
        if self.ep_index.0 == crate::types::square::NO_SQUARE {
            assert(self.en_passant_moves(ctm).len() == 0);
        } else {
            let takers = self.en_passant_takers(ctm);
            lemma_en_passant_member(self, ctm, takers, m);
            let taker = choose|taker: u8|
                bit(takers, taker) && m == Move(pack(taker, self.ep_index.0, FLAG_EN_PASSANT));
            let attack = crate::movegen::pawns::pawn_attack_mask(self.ep_index.0, (1 - ctm) as u8);
            lemma_bit_ops(attack & self.own_pawns(ctm), !self.ortho_pin_mask, taker);
            lemma_bit_ops(attack, self.own_pawns(ctm), taker);
            self.lemma_pawn_square(ctm, taker);
            lemma_pack(taker, self.ep_index.0, FLAG_EN_PASSANT);
        }
    }

    /// Every legal move can be made: it moves a piece of the side to move to
    /// a square that is empty or holds an enemy piece other than the king,
    /// and what its flag says is so on the board.
    pub proof fn lemma_legal_accepted(self, ctm: u8, m: Move)
        requires
            self.wf(ctm),
            self.legal_moves(ctm).contains(m),
        ensures
            self.accepts(ctm, m),
    {
        reveal(Position::legal_moves);
        let a = self.castle_moves(ctm);
        let b = piece_moves(self, ctm, self.movers(ctm));
        let c = self.pawn_moves(ctm);
        lemma_in_concat(a + b, c, m);
        if (a + b).contains(m) {
            lemma_in_concat(a, b, m);
        }
        if a.contains(m) {
            self.lemma_castle_accepted(ctm, m);
        } else if b.contains(m) {
            lemma_piece_moves_member(self, ctm, self.movers(ctm), m);
            let from = choose|from: u8|
                bit(self.movers(ctm), from) && #[trigger] self.moves_from(ctm, from).contains(m);
            self.lemma_piece_accepted(ctm, from, m);
        } else {
            if self.check_count() == 2 {
                assert(c.len() == 0);
            } else {
                let x = self.pawn_pushes(ctm);
                let y = self.pawn_captures(ctm);
                let z = self.en_passant_moves(ctm);
                lemma_in_concat(x + y, z, m);
                if (x + y).contains(m) {
                    lemma_in_concat(x, y, m);
                }
                if x.contains(m) {
                    self.lemma_push_accepted(ctm, m);
                } else if y.contains(m) {
                    self.lemma_captures_accepted(ctm, m);
                } else {
                    self.lemma_en_passant_accepted(ctm, m);
                }
            }
        }
    }
}

} // verus!
