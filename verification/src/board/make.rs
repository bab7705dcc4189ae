//! Making and taking back moves.

use vstd::prelude::*;
use vstd::array::spec_array_update;
use crate::bits::{bit, lemma_bit_ops, lemma_sq_bit, sq_bit};
use crate::board::position::{behind, full_hash, hash_upto, key_at, Position};
use crate::board::stack::{Board, BoardView};
use crate::hash::{ctm_key, psq_key};
use crate::types::moves::{
    Move, FLAG_BISHOP_PROMO, FLAG_BK_CASTLE, FLAG_BQ_CASTLE, FLAG_DOUBLE_PUSH, FLAG_EN_PASSANT,
    FLAG_KNIGHT_PROMO, FLAG_NORMAL, FLAG_QUEEN_PROMO, FLAG_ROOK_PROMO, FLAG_WK_CASTLE,
    FLAG_WQ_CASTLE,
};
use crate::types::piece::{
    is_piece_code, piece_code, Piece, BISHOP, KING, KNIGHT, NO_PIECE, PAWN, QUEEN, ROOK,
};
use crate::types::square::{Square, NO_SQUARE};

verus! {

/// The rights that stay when a rook leaves `sq` or is taken there: all but
/// the one that belongs to that corner.
pub open spec fn rook_right_mask(sq: u8) -> u8 {
    if sq == 0 {
        0b1101
    } else if sq == 7 {
        0b1110
    } else if sq == 56 {
        0b0111
    } else if sq == 63 {
        0b1011
    } else {
        255
    }
}

/// The rights of side `c`: the low two bits for white, the next two for black.
pub open spec fn side_rights(c: u8) -> u8 {
    if c == 1 {
        0b0011
    } else {
        0b1100
    }
}

/// The piece a promotion with flag `flag` puts on the board.
pub open spec fn promoted_kind(flag: u8) -> u8 {
    if flag == FLAG_KNIGHT_PROMO {
        KNIGHT
    } else if flag == FLAG_BISHOP_PROMO {
        BISHOP
    } else if flag == FLAG_ROOK_PROMO {
        ROOK
    } else {
        QUEEN
    }
}

/// Combining keys: the order does not matter, a key combined twice drops out.
pub proof fn lemma_xor(a: u64, b: u64, c: u64)
    ensures
        a ^ 0 == a,
        (a ^ b) ^ c == (a ^ c) ^ b,
        (a ^ b) ^ (b ^ c) == a ^ c,
        (a ^ b) ^ b == a,
        0 ^ a == a,
{
    assert(a ^ 0 == a && (a ^ b) ^ c == (a ^ c) ^ b && (a ^ b) ^ (b ^ c) == a ^ c && (a ^ b) ^ b
        == a && 0 ^ a == a) by (bit_vector);
}

/// Which rights survive the masks that moves apply.
pub proof fn lemma_right_masks(c: u8)
    ensures
        (c & 0b1101) & 2 == 0,
        (c & 0b1110) & 1 == 0,
        (c & 0b0111) & 8 == 0,
        (c & 0b1011) & 4 == 0,
        (c & 0b1100) & 1 == 0,
        (c & 0b1100) & 2 == 0,
        (c & 0b0011) & 4 == 0,
        (c & 0b0011) & 8 == 0,
        c & 1 != 0 ==> c & 0b0011 != 0,
        c & 2 != 0 ==> c & 0b0011 != 0,
        c & 4 != 0 ==> c & 0b1100 != 0,
        c & 8 != 0 ==> c & 0b1100 != 0,
{
    assert((c & 0b1101) & 2 == 0 && (c & 0b1110) & 1 == 0 && (c & 0b0111) & 8 == 0 && (c & 0b1011)
        & 4 == 0 && (c & 0b1100) & 1 == 0 && (c & 0b1100) & 2 == 0 && (c & 0b0011) & 4 == 0 && (c
        & 0b0011) & 8 == 0 && (c & 1 != 0 ==> c & 0b0011 != 0) && (c & 2 != 0 ==> c & 0b0011 != 0)
        && (c & 4 != 0 ==> c & 0b1100 != 0) && (c & 8 != 0 ==> c & 0b1100 != 0)) by (bit_vector);
}

/// A mask never adds a right.
pub proof fn lemma_rights_shrink(c: u8, m: u8)
    ensures
        (c & m) & 1 != 0 ==> c & 1 != 0,
        (c & m) & 2 != 0 ==> c & 2 != 0,
        (c & m) & 4 != 0 ==> c & 4 != 0,
        (c & m) & 8 != 0 ==> c & 8 != 0,
        c < 16 ==> c & m < 16,
{
    assert((c < 16 ==> c & m < 16) && ((c & m) & 1 != 0 ==> c & 1 != 0) && ((c & m) & 2 != 0 ==> c & 2 != 0) && ((c & m) & 4
        != 0 ==> c & 4 != 0) && ((c & m) & 8 != 0 ==> c & 8 != 0)) by (bit_vector);
}

/// Writing `code` to square `sq` changes the combined keys of the first `n`
/// squares by the keys of what stood there and of what stands there now.
pub proof fn lemma_hash_update(m: Seq<u8>, sq: u8, code: u8, n: nat)
    requires
        m.len() == 64,
        sq < 64,
        n <= 64,
    ensures
        hash_upto(m.update(sq as int, code), n) == if sq < n {
            hash_upto(m, n) ^ (key_at(m[sq as int], sq) ^ key_at(code, sq))
        } else {
            hash_upto(m, n)
        },
    decreases n,
{
    if n > 0 {
        let k = (n - 1) as nat;
        lemma_hash_update(m, sq, code, k);
        let x = hash_upto(m, k);
        let old_key = key_at(m[sq as int], sq);
        let new_key = key_at(code, sq);
        if sq as nat == k {
            lemma_xor(x, old_key, new_key);
        } else if (sq as nat) < k {
            lemma_xor(x, old_key ^ new_key, key_at(m[k as int], k as u8));
        }
    }
}

impl Position {
    /// Taking the piece that stands on `sq` off the board keeps sets and
    /// mailbox in agreement and takes its key out of the hash.
    pub proof fn lemma_take(self, sq: u8, code: u8)
        requires
            self.boards_agree(),
            sq < 64,
            is_piece_code(code),
            self.mailbox[sq as int] == code,
        ensures
            self.without_piece(sq, code).boards_agree(),
            self.without_piece(sq, code).mailbox@ == self.mailbox@.update(sq as int, NO_PIECE),
            forall|c: u8|
                #[trigger] full_hash(self.without_piece(sq, code).mailbox@, c) == full_hash(
                    self.mailbox@,
                    c,
                ) ^ psq_key(code, sq),
    {
        let q = self.without_piece(sq, code);
        assert(q.mailbox@ =~= self.mailbox@.update(sq as int, NO_PIECE));
        assert forall|s: u8| s < 64 implies #[trigger] q.square_agrees(s) by {
            assert(self.square_agrees(s));
            lemma_sq_bit(sq, s);
            lemma_bit_ops(self.colors[(code / 8) as int], sq_bit(sq), s);
            lemma_bit_ops(self.pieces[(code % 8) as int], sq_bit(sq), s);
        }
        lemma_hash_update(self.mailbox@, sq, NO_PIECE, 64);
        let h = hash_upto(self.mailbox@, 64);
        lemma_xor(psq_key(code, sq), 0, 0);
        assert forall|c: u8| #[trigger] full_hash(q.mailbox@, c) == full_hash(self.mailbox@, c)
            ^ psq_key(code, sq) by {
            lemma_xor(h, ctm_key(), psq_key(code, sq));
        }
    }

    /// Putting a piece on an empty square keeps sets and mailbox in agreement
    /// and adds its key to the hash.
    pub proof fn lemma_put(self, sq: u8, code: u8)
        requires
            self.boards_agree(),
            sq < 64,
            is_piece_code(code),
            self.mailbox[sq as int] == NO_PIECE,
        ensures
            self.with_piece(sq, code).boards_agree(),
            self.with_piece(sq, code).mailbox@ == self.mailbox@.update(sq as int, code),
            forall|c: u8|
                #[trigger] full_hash(self.with_piece(sq, code).mailbox@, c) == full_hash(
                    self.mailbox@,
                    c,
                ) ^ psq_key(code, sq),
    {
        let q = self.with_piece(sq, code);
        assert(q.mailbox@ =~= self.mailbox@.update(sq as int, code));
        assert forall|s: u8| s < 64 implies #[trigger] q.square_agrees(s) by {
            assert(self.square_agrees(s));
            lemma_sq_bit(sq, s);
            lemma_bit_ops(self.colors[(code / 8) as int], sq_bit(sq), s);
            lemma_bit_ops(self.pieces[(code % 8) as int], sq_bit(sq), s);
        }
        lemma_hash_update(self.mailbox@, sq, code, 64);
        let h = hash_upto(self.mailbox@, 64);
        lemma_xor(psq_key(code, sq), 0, 0);
        assert forall|c: u8| #[trigger] full_hash(q.mailbox@, c) == full_hash(self.mailbox@, c)
            ^ psq_key(code, sq) by {
            lemma_xor(h, ctm_key(), psq_key(code, sq));
        }
    }
}

impl Position {
    /// Whether `m` is a move that can be made with `ctm` to move: it takes a
    /// piece of that side to a square that is empty or holds an enemy piece
    /// other than the king, and what its flag says is so on the board.
    /// Every legal move is such a move.
    pub open spec fn accepts(self, ctm: u8, m: Move) -> bool {
        let from = m.spec_from();
        let to = m.spec_to();
        let flag = m.flag_code();
        let piece = self.mailbox[from as int];
        let victim = self.mailbox[to as int];
        &&& from < 64 && to < 64 && flag <= FLAG_QUEEN_PROMO
        &&& is_piece_code(piece) && piece / 8 == ctm
        &&& victim == NO_PIECE || (is_piece_code(victim) && victim / 8 != ctm && victim % 8
            != KING)
        &&& flag == FLAG_WK_CASTLE ==> ctm == 1 && from == 4 && to == 6 && self.castling & 1 != 0
            && self.mailbox[5] == NO_PIECE && self.mailbox[6] == NO_PIECE
        &&& flag == FLAG_WQ_CASTLE ==> ctm == 1 && from == 4 && to == 2 && self.castling & 2 != 0
            && self.mailbox[1] == NO_PIECE && self.mailbox[2] == NO_PIECE && self.mailbox[3]
            == NO_PIECE
        &&& flag == FLAG_BK_CASTLE ==> ctm == 0 && from == 60 && to == 62 && self.castling & 4
            != 0 && self.mailbox[61] == NO_PIECE && self.mailbox[62] == NO_PIECE
        &&& flag == FLAG_BQ_CASTLE ==> ctm == 0 && from == 60 && to == 58 && self.castling & 8
            != 0 && self.mailbox[57] == NO_PIECE && self.mailbox[58] == NO_PIECE
            && self.mailbox[59] == NO_PIECE
        &&& flag == FLAG_EN_PASSANT ==> piece % 8 == PAWN && to == self.ep_index.0
        &&& flag == FLAG_DOUBLE_PUSH ==> piece % 8 == PAWN && victim == NO_PIECE && (ctm == 1
            ==> to == from + 16 && self.mailbox[from + 8] == NO_PIECE) && (ctm == 0 ==> from
            == to + 16 && self.mailbox[to + 8] == NO_PIECE)
        &&& flag >= FLAG_KNIGHT_PROMO ==> piece % 8 == PAWN
    }

    /// The castling rights after `m`: a rook that leaves its corner or is
    /// taken there ends the right of that corner, a king that moves ends
    /// both rights of its side.
    pub open spec fn rights_after(self, ctm: u8, m: Move) -> u8 {
        let kind = self.mailbox[m.spec_from() as int] % 8;
        let first = if self.castling & side_rights(ctm) != 0 {
            if kind == ROOK {
                self.castling & rook_right_mask(m.spec_from())
            } else if kind == KING {
                self.castling & side_rights((1 - ctm) as u8)
            } else {
                self.castling
            }
        } else {
            self.castling
        };
        if self.mailbox[m.spec_to() as int] % 8 == ROOK {
            first & rook_right_mask(m.spec_to())
        } else {
            first
        }
    }

    /// The position before the pieces move: the clock runs on, or starts
    /// anew after a capture or a pawn move (it stops at 255); the king's
    /// square and the rights follow the move; the en-passant square is gone.
    pub open spec fn prepared(self, ctm: u8, m: Move) -> Position {
        let piece = self.mailbox[m.spec_from() as int];
        let victim = self.mailbox[m.spec_to() as int];
        Position {
            hm_clock: if victim % 8 != NO_PIECE || piece % 8 == PAWN {
                0
            } else if self.hm_clock < 255 {
                (self.hm_clock + 1) as u8
            } else {
                255
            },
            king_sqs: if piece % 8 == KING {
                spec_array_update(self.king_sqs, ctm as int, m.spec_to())
            } else {
                self.king_sqs
            },
            castling: self.rights_after(ctm, m),
            ep_index: Square(NO_SQUARE),
            ..self
        }
    }

    /// The position after the moving piece has gone: what stood on the
    /// destination is off the board, and the piece stands there unless it is
    /// a pawn that promotes.
    pub open spec fn lifted(self, ctm: u8, m: Move) -> Position {
        let from = m.spec_from();
        let to = m.spec_to();
        let piece = self.mailbox[from as int];
        let victim = self.mailbox[to as int];
        let base = self.prepared(ctm, m);
        let cleared = if victim % 8 != NO_PIECE {
            base.without_piece(to, victim)
        } else {
            base
        };
        let gone = cleared.without_piece(from, piece);
        if m.flag_code() < FLAG_KNIGHT_PROMO {
            gone.with_piece(to, piece)
        } else {
            gone
        }
    }

    /// The position after what the flag asks for: the rook's move when
    /// castling, the passed pawn off the board when taking en passant, the
    /// new piece on the board when promoting.
    pub open spec fn settled(self, ctm: u8, m: Move) -> Position {
        let to = m.spec_to();
        let flag = m.flag_code();
        let s = self.lifted(ctm, m);
        if flag == FLAG_WK_CASTLE {
            s.with_move(7, 11, 5, NO_PIECE)
        } else if flag == FLAG_WQ_CASTLE {
            s.with_move(0, 11, 3, NO_PIECE)
        } else if flag == FLAG_BK_CASTLE {
            s.with_move(63, 3, 61, NO_PIECE)
        } else if flag == FLAG_BQ_CASTLE {
            s.with_move(56, 3, 59, NO_PIECE)
        } else if flag == FLAG_EN_PASSANT {
            s.without_piece(behind(to, ctm), piece_code(PAWN, (1 - ctm) as u8))
        } else if flag >= FLAG_KNIGHT_PROMO {
            s.with_piece(to, piece_code(promoted_kind(flag), ctm))
        } else {
            s
        }
    }

    /// The placement after `m`: the pieces moved, the square a double push
    /// passed over marked for en passant, and the move handed over in the
    /// hash.
    pub open spec fn moved(self, ctm: u8, m: Move) -> Position {
        let s = self.settled(ctm, m);
        Position {
            hash: s.hash ^ ctm_key(),
            ep_index: if m.flag_code() == FLAG_DOUBLE_PUSH {
                Square(behind(m.spec_to(), ctm))
            } else {
                Square(NO_SQUARE)
            },
            ..s
        }
    }

    /// The position after `m` is made with `ctm` to move, with check and pin
    /// masks for the other side.
    #[verifier::opaque]
    pub open spec fn successor(self, ctm: u8, m: Move) -> Position {
        self.moved(ctm, m).with_masks((1 - ctm) as u8)
    }
}

impl Position {
    /// The mailbox once the moving piece has gone.
    pub open spec fn lifted_mailbox(self, m: Move) -> Seq<u8> {
        let from = m.spec_from() as int;
        let to = m.spec_to() as int;
        let gone = self.mailbox@.update(to, NO_PIECE).update(from, NO_PIECE);
        if m.flag_code() < FLAG_KNIGHT_PROMO {
            gone.update(to, self.mailbox[from])
        } else {
            gone
        }
    }

    /// The mailbox once the move is made.
    pub open spec fn settled_mailbox(self, ctm: u8, m: Move) -> Seq<u8> {
        let to = m.spec_to();
        let flag = m.flag_code();
        let s = self.lifted_mailbox(m);
        if flag == FLAG_WK_CASTLE {
            s.update(7, NO_PIECE).update(5, 11)
        } else if flag == FLAG_WQ_CASTLE {
            s.update(0, NO_PIECE).update(3, 11)
        } else if flag == FLAG_BK_CASTLE {
            s.update(63, NO_PIECE).update(61, 3)
        } else if flag == FLAG_BQ_CASTLE {
            s.update(56, NO_PIECE).update(59, 3)
        } else if flag == FLAG_EN_PASSANT {
            s.update(behind(to, ctm) as int, NO_PIECE)
        } else if flag >= FLAG_KNIGHT_PROMO {
            s.update(to as int, piece_code(promoted_kind(flag), ctm))
        } else {
            s
        }
    }

    /// Lifting the moving piece keeps the sets, the mailbox and the hash in
    /// agreement.
    pub proof fn lemma_lifted(self, ctm: u8, m: Move)
        requires
            self.placement_wf(ctm),
            self.accepts(ctm, m),
        ensures
            self.lifted(ctm, m).boards_agree(),
            self.lifted(ctm, m).hash_agrees(ctm),
            self.lifted(ctm, m).mailbox@ == self.lifted_mailbox(m),
    {
        let from = m.spec_from();
        let to = m.spec_to();
        let piece = self.mailbox[from as int];
        let victim = self.mailbox[to as int];
        let base = self.prepared(ctm, m);
        assert(self.square_agrees(to));
        assert(self.square_agrees(from));
        assert(base.boards_agree()) by {
            assert forall|s: u8| s < 64 implies #[trigger] base.square_agrees(s) by {
                assert(self.square_agrees(s));
            }
        }
        let cleared = if victim % 8 != NO_PIECE {
            base.without_piece(to, victim)
        } else {
            base
        };
        if victim % 8 != NO_PIECE {
            base.lemma_take(to, victim);
        }
        assert(cleared.mailbox@ =~= self.mailbox@.update(to as int, NO_PIECE));
        assert(cleared.hash == full_hash(cleared.mailbox@, ctm));
        cleared.lemma_take(from, piece);
        let gone = cleared.without_piece(from, piece);
        assert(gone.hash == full_hash(gone.mailbox@, ctm));
        if m.flag_code() < FLAG_KNIGHT_PROMO {
            gone.lemma_put(to, piece);
        }
    }

    /// What the flag asks for keeps the sets, the mailbox and the hash in
    /// agreement.
    pub proof fn lemma_settled(self, ctm: u8, m: Move)
        requires
            self.placement_wf(ctm),
            self.accepts(ctm, m),
        ensures
            self.settled(ctm, m).boards_agree(),
            self.settled(ctm, m).hash_agrees(ctm),
            self.settled(ctm, m).mailbox@ == self.settled_mailbox(ctm, m),
    {
        self.lemma_lifted(ctm, m);
        let to = m.spec_to();
        let flag = m.flag_code();
        let s = self.lifted(ctm, m);
        if flag == FLAG_WK_CASTLE {
            s.lemma_take(7, 11);
            s.without_piece(7, 11).lemma_put(5, 11);
        } else if flag == FLAG_WQ_CASTLE {
            s.lemma_take(0, 11);
            s.without_piece(0, 11).lemma_put(3, 11);
        } else if flag == FLAG_BK_CASTLE {
            s.lemma_take(63, 3);
            s.without_piece(63, 3).lemma_put(61, 3);
        } else if flag == FLAG_BQ_CASTLE {
            s.lemma_take(56, 3);
            s.without_piece(56, 3).lemma_put(59, 3);
        } else if flag == FLAG_EN_PASSANT {
            s.lemma_take(behind(to, ctm), piece_code(PAWN, (1 - ctm) as u8));
        } else if flag >= FLAG_KNIGHT_PROMO {
            s.lemma_put(to, piece_code(promoted_kind(flag), ctm));
        }
    }
}

impl Position {
    /// After a move each side still has its one king where `king_sqs` says.
    pub proof fn lemma_moved_kings(self, ctm: u8, m: Move, c: u8)
        requires
            self.placement_wf(ctm),
            self.accepts(ctm, m),
            c < 2,
        ensures
            self.moved(ctm, m).king_placed(c),
    {
        self.lemma_settled(ctm, m);
        let from = m.spec_from();
        let to = m.spec_to();
        let q = self.moved(ctm, m);
        assert(self.square_agrees(to));
        assert(self.square_agrees(from));
        assert(q.mailbox@ == self.settled_mailbox(ctm, m));
        assert(q.king_sqs == self.prepared(ctm, m).king_sqs);
        let k = self.king_sqs[c as int];
        assert(self.king_placed(c));
        assert(self.king_placed(0) && self.king_placed(1));
        assert forall|sq: u8|
            sq < 64 && #[trigger] q.mailbox[sq as int] == piece_code(KING, c) implies sq
            == q.king_sqs[c as int] by {
            if sq != to {
                assert(self.mailbox[sq as int] == piece_code(KING, c));
            }
        }
    }

    /// After a move each right that is left still has its king and rook at
    /// home.
    pub proof fn lemma_moved_castling(self, ctm: u8, m: Move)
        requires
            self.placement_wf(ctm),
            self.accepts(ctm, m),
        ensures
            self.moved(ctm, m).castling_backed(),
    {
        self.lemma_settled(ctm, m);
        let from = m.spec_from();
        let to = m.spec_to();
        let q = self.moved(ctm, m);
        let c = self.castling;
        let kind = self.mailbox[from as int] % 8;
        let first = if c & side_rights(ctm) != 0 {
            if kind == ROOK {
                c & rook_right_mask(from)
            } else if kind == KING {
                c & side_rights((1 - ctm) as u8)
            } else {
                c
            }
        } else {
            c
        };
        assert(q.castling == self.rights_after(ctm, m));
        assert(q.mailbox@ == self.settled_mailbox(ctm, m));
        lemma_right_masks(c);
        lemma_right_masks(first);
        lemma_rights_shrink(c, rook_right_mask(from));
        lemma_rights_shrink(c, side_rights((1 - ctm) as u8));
        lemma_rights_shrink(first, rook_right_mask(to));
        assert(self.square_agrees(to));
        assert(self.square_agrees(from));
        assert(self.en_passant_backed(ctm));
    }

    /// After a double push the square passed over is empty and has the pawn
    /// behind it; after any other move there is no en-passant square.
    pub proof fn lemma_moved_en_passant(self, ctm: u8, m: Move)
        requires
            self.placement_wf(ctm),
            self.accepts(ctm, m),
        ensures
            self.moved(ctm, m).en_passant_backed((1 - ctm) as u8),
    {
        self.lemma_settled(ctm, m);
        let q = self.moved(ctm, m);
        assert(q.mailbox@ == self.settled_mailbox(ctm, m));
    }

    /// A move that can be made leaves a sound placement for the other side.
    pub proof fn lemma_moved_wf(self, ctm: u8, m: Move)
        requires
            self.placement_wf(ctm),
            self.accepts(ctm, m),
        ensures
            self.moved(ctm, m).placement_wf((1 - ctm) as u8),
            self.successor(ctm, m).wf((1 - ctm) as u8),
    {
        reveal(Position::successor);
        self.lemma_settled(ctm, m);
        self.lemma_moved_kings(ctm, m, 0);
        self.lemma_moved_kings(ctm, m, 1);
        self.lemma_moved_castling(ctm, m);
        self.lemma_moved_en_passant(ctm, m);
        let s = self.settled(ctm, m);
        let q = self.moved(ctm, m);
        let next = (1 - ctm) as u8;
        assert(q.boards_agree()) by {
            assert forall|sq: u8| sq < 64 implies #[trigger] q.square_agrees(sq) by {
                assert(s.square_agrees(sq));
            }
        }
        lemma_xor(hash_upto(q.mailbox@, 64), ctm_key(), 0);
        assert(q.hash_agrees(next));
        q.lemma_masks_keep_placement(next);
    }

    /// Computing the masks anew leaves the placement as it is.
    pub proof fn lemma_masks_keep_placement(self, ctm: u8)
        requires
            self.placement_wf(ctm),
        ensures
            self.with_masks(ctm).wf(ctm),
    {
        let q = self.with_masks(ctm);
        assert forall|sq: u8| sq < 64 implies #[trigger] q.square_agrees(sq) by {
            assert(self.square_agrees(sq));
        }
        assert(self.king_placed(0) && self.king_placed(1));
        assert(q.king_placed(0));
        assert(q.king_placed(1));
    }
}

/// The rights that stay when a rook leaves `sq` or is taken there.
fn rook_rights(sq: u8) -> (m: u8)
    ensures
        m == rook_right_mask(sq),
{
    if sq == 0 {
        0b1101
    } else if sq == 7 {
        0b1110
    } else if sq == 56 {
        0b0111
    } else if sq == 63 {
        0b1011
    } else {
        255
    }
}

/// The rights of side `c`.
fn rights_of(c: u8) -> (m: u8)
    ensures
        m == side_rights(c),
{
    if c == 1 {
        0b0011
    } else {
        0b1100
    }
}

impl Position {
    /// Makes `mov` with `ctm` to move: the position becomes its successor.
    pub fn apply(&mut self, ctm: u8, mov: Move)
        requires
            old(self).placement_wf(ctm),
            old(self).accepts(ctm, mov),
        ensures
            *final(self) == old(self).successor(ctm, mov),
            final(self).wf((1 - ctm) as u8),
    {
        let from = mov.from();
        let to = mov.to();
        let flag = (mov.0 >> 12) as u8;
        let piece = Piece(self.mailbox[from as usize]);
        let victim = Piece(self.mailbox[to as usize]);
        let kind = piece.0 % 8;
        let capture = victim.0 % 8 != NO_PIECE;
        proof {
            reveal(Position::successor);
            old(self).lemma_moved_wf(ctm, mov);
            assert(old(self).square_agrees(to));
            assert(old(self).square_agrees(from));
        }
        if capture || kind == PAWN {
            self.hm_clock = 0;
        } else if self.hm_clock < 255 {
            self.hm_clock = self.hm_clock + 1;
        }
        if kind == KING {
            self.king_sqs[ctm as usize] = to;
        }
        if self.castling & rights_of(ctm) != 0 {
            if kind == ROOK {
                self.castling = self.castling & rook_rights(from);
            } else if kind == KING {
                self.castling = self.castling & rights_of(1 - ctm);
            }
        }
        if victim.0 % 8 == ROOK {
            self.castling = self.castling & rook_rights(to);
        }
        self.ep_index = Square(NO_SQUARE);
        proof {
            assert(self.king_sqs@ =~= old(self).prepared(ctm, mov).king_sqs@);
            assert(*self == old(self).prepared(ctm, mov));
        }
        if capture {
            self.remove_piece(Square(to), victim);
        }
        self.remove_piece(Square(from), piece);
        if flag < FLAG_KNIGHT_PROMO {
            self.add_piece(Square(to), piece);
        }
        assert(*self == old(self).lifted(ctm, mov));
        if flag == FLAG_WK_CASTLE {
            self.move_piece(Square(7), Piece(11), Square(5), Piece(NO_PIECE));
        } else if flag == FLAG_WQ_CASTLE {
            self.move_piece(Square(0), Piece(11), Square(3), Piece(NO_PIECE));
        } else if flag == FLAG_BK_CASTLE {
            self.move_piece(Square(63), Piece(3), Square(61), Piece(NO_PIECE));
        } else if flag == FLAG_BQ_CASTLE {
            self.move_piece(Square(56), Piece(3), Square(59), Piece(NO_PIECE));
        } else if flag == FLAG_EN_PASSANT {
            proof {
                assert(old(self).en_passant_backed(ctm));
            }
            let passed = if ctm == 0 { to + 8 } else { to - 8 };
            self.remove_piece(Square(passed), Piece::new_unchecked(PAWN, 1 - ctm));
        } else if flag >= FLAG_KNIGHT_PROMO {
            let kind = if flag == FLAG_KNIGHT_PROMO {
                KNIGHT
            } else if flag == FLAG_BISHOP_PROMO {
                BISHOP
            } else if flag == FLAG_ROOK_PROMO {
                ROOK
            } else {
                QUEEN
            };
            self.add_piece(Square(to), Piece::new_unchecked(kind, ctm));
        }
        assert(*self == old(self).settled(ctm, mov));
        if flag == FLAG_DOUBLE_PUSH {
            self.ep_index = Square(if ctm == 0 { to + 8 } else { to - 8 });
        }
        self.switch_color();
        assert(*self == old(self).moved(ctm, mov));
        assert(self.king_placed((1 - ctm) as u8));
        self.refresh_masks(1 - ctm);
    }
}

/// The board after `mov` is made: the successor of the current position is
/// on top of the stack, the other side is to move, one more ply is played.
pub open spec fn made(b: BoardView, mov: Move) -> BoardView {
    BoardView {
        states: b.states.push(b.states.last().successor(b.ctm, mov)),
        ctm: (1 - b.ctm) as u8,
        ply: b.ply.wrapping_add(1),
    }
}

/// The board after the last move is taken back: the current position is
/// dropped, the side that made the move is to move again, the ply is off the
/// count.
pub open spec fn undone(b: BoardView) -> BoardView {
    BoardView {
        states: if b.states.len() > 0 {
            b.states.drop_last()
        } else {
            b.states
        },
        ctm: (1 - b.ctm) as u8,
        ply: b.ply.wrapping_sub(1),
    }
}

impl Board {
    /// Whether `mov` can be made on the current position.
    pub open spec fn accepts(self, mov: Move) -> bool {
        self.top().accepts(self.ctm, mov)
    }

    /// Makes `mov`, a legal move of the current position: pushes the
    /// successor position, hands the move to the other side and counts the
    /// ply.
    pub fn make_move(&mut self, mov: Move)
        requires
            old(self).wf(),
            old(self).legal_moves().contains(mov),
        ensures
            final(self)@ == made(old(self)@, mov),
            final(self).wf(),
    {
        proof {
            old(self).top().lemma_legal_accepted(old(self).ctm, mov);
        }
        let mut state = *self.current_state();
        state.apply(self.ctm, mov);
        self.states.push(state);
        self.ply = self.ply.wrapping_add(1);
        self.ctm = 1 - self.ctm;
    }

    /// Takes back the last move: drops the current position, hands the move
    /// back and takes the ply off the count.
    pub fn undo_move(&mut self)
        requires
            old(self).ctm < 2,
        ensures
            final(self)@ == undone(old(self)@),
    {
        self.states.pop();
        self.ply = self.ply.wrapping_sub(1);
        self.ctm = 1 - self.ctm;
        assert(self.states@ =~= undone(old(self)@).states);
    }
}

} // verus!
