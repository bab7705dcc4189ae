//! One chess position: where the pieces stand, seen both as sets of squares
//! and square by square, with the rights and counters that go with it.

use vstd::prelude::*;
use vstd::array::{spec_array_fill_for_copy_type, spec_array_update};
use crate::bits::{bit, lemma_bit_ops, lemma_sq_bit, sq_bit};
use crate::hash::{ctm_key, psq_key, zobrist_ctm, zobrist_psq};
use crate::types::bitboard::Bitboard;
use crate::types::piece::{is_piece_code, piece_code, Piece, KING, NO_PIECE, PAWN};
use crate::types::square::{Square, NO_SQUARE};

verus! {

/// A snapshot of the game.
///
/// `colors[c]` holds the squares of side `c` and `pieces[k]` those of kind
/// `k`; `mailbox[sq]` is the piece code on `sq`; `king_sqs[c]` is the square
/// of the king of side `c`. `checkers` holds the pieces that give check to the
/// side to move, and the two pin masks the squares of the lines along which
/// one of its pieces is pinned.
#[derive(Debug, Copy, Clone)]
pub struct Position {
    pub colors: [u64; 2],
    pub pieces: [u64; 6],
    pub mailbox: [u8; 64],
    pub king_sqs: [u8; 2],
    pub hash: u64,
    pub ep_index: Square,
    pub hm_clock: u8,
    pub castling: u8,
    pub checkers: u64,
    pub diago_pin_mask: u64,
    pub ortho_pin_mask: u64,
}

/// The key that a square with code `code` on it adds to the hash: that of
/// the piece, or nothing for an empty square.
pub open spec fn key_at(code: u8, sq: u8) -> u64 {
    if is_piece_code(code) {
        psq_key(code, sq)
    } else {
        0
    }
}

/// The keys of the first `n` squares of `mailbox`, combined.
pub open spec fn hash_upto(mailbox: Seq<u8>, n: nat) -> u64
    decreases n,
{
    if n == 0 {
        0
    } else {
        hash_upto(mailbox, (n - 1) as nat) ^ key_at(mailbox[n - 1], (n - 1) as u8)
    }
}

/// The hash of a position computed from scratch: the keys of all pieces on
/// their squares, and the side-to-move key when white is to move.
pub open spec fn full_hash(mailbox: Seq<u8>, ctm: u8) -> u64 {
    if ctm == 1 {
        hash_upto(mailbox, 64) ^ ctm_key()
    } else {
        hash_upto(mailbox, 64)
    }
}

/// The square behind `ep` as the side to move sees it: where the pawn stands
/// that has just passed over `ep`.
pub open spec fn behind(ep: u8, ctm: u8) -> u8 {
    if ctm == 0 {
        (ep + 8) as u8
    } else {
        (ep - 8) as u8
    }
}

impl Position {
    /// The code on `sq`.
    pub open spec fn code_at(self, sq: u8) -> u8 {
        self.mailbox[sq as int]
    }

    /// All occupied squares.
    pub open spec fn occupied_mask(self) -> u64 {
        self.colors[0] | self.colors[1]
    }

    /// The squares that hold a piece of kind `kind` and side `color`.
    pub open spec fn piece_mask(self, kind: u8, color: u8) -> u64 {
        self.colors[color as int] & self.pieces[kind as int]
    }

    /// Whether the sets of squares say of `sq` what the mailbox says: the
    /// code there is a piece or the empty code, `sq` is in the set of a kind
    /// exactly when a piece of that kind stands there, and in the set of a
    /// side exactly when a piece of that side stands there.
    pub open spec fn square_agrees(self, sq: u8) -> bool {
        let code = self.mailbox[sq as int];
        let held = is_piece_code(code);
        &&& held || code == NO_PIECE
        &&& bit(self.pieces[0], sq) == (held && code % 8 == 0)
        &&& bit(self.pieces[1], sq) == (held && code % 8 == 1)
        &&& bit(self.pieces[2], sq) == (held && code % 8 == 2)
        &&& bit(self.pieces[3], sq) == (held && code % 8 == 3)
        &&& bit(self.pieces[4], sq) == (held && code % 8 == 4)
        &&& bit(self.pieces[5], sq) == (held && code % 8 == 5)
        &&& bit(self.colors[0], sq) == (held && code / 8 == 0)
        &&& bit(self.colors[1], sq) == (held && code / 8 == 1)
    }

    /// Whether the sets of squares and the mailbox agree on every square.
    pub open spec fn boards_agree(self) -> bool {
        forall|sq: u8| sq < 64 ==> #[trigger] self.square_agrees(sq)
    }

    /// Whether side `c` has its king on `king_sqs[c]` and nowhere else.
    pub open spec fn king_placed(self, c: u8) -> bool {
        &&& self.king_sqs[c as int] < 64
        &&& self.mailbox[self.king_sqs[c as int] as int] == piece_code(KING, c)
        &&& forall|sq: u8|
            sq < 64 && #[trigger] self.mailbox[sq as int] == piece_code(KING, c) ==> sq
                == self.king_sqs[c as int]
    }

    /// Whether the rights are among the four and each still has its king and
    /// rook at home.
    pub open spec fn castling_backed(self) -> bool {
        &&& self.castling < 16
        &&& self.castling & 1 != 0 ==> self.mailbox[4] == 13 && self.mailbox[7] == 11
        &&& self.castling & 2 != 0 ==> self.mailbox[4] == 13 && self.mailbox[0] == 11
        &&& self.castling & 4 != 0 ==> self.mailbox[60] == 5 && self.mailbox[63] == 3
        &&& self.castling & 8 != 0 ==> self.mailbox[60] == 5 && self.mailbox[56] == 3
    }

    /// Whether the en-passant square, if there is one, is empty and has a
    /// pawn of the side that has just moved behind it.
    pub open spec fn en_passant_backed(self, ctm: u8) -> bool {
        let ep = self.ep_index.0;
        ep == NO_SQUARE || (8 <= ep < 56 && self.mailbox[ep as int] == NO_PIECE
            && self.mailbox[behind(ep, ctm) as int] == piece_code(PAWN, (1 - ctm) as u8))
    }

    /// Whether the stored hash is the hash computed from scratch.
    pub open spec fn hash_agrees(self, ctm: u8) -> bool {
        self.hash == full_hash(self.mailbox@, ctm)
    }

    /// Whether the placement part of the position is sound with `ctm` to
    /// move: everything but the check and pin masks.
    pub open spec fn placement_wf(self, ctm: u8) -> bool {
        &&& ctm < 2
        &&& self.boards_agree()
        &&& self.king_placed(0)
        &&& self.king_placed(1)
        &&& self.castling_backed()
        &&& self.en_passant_backed(ctm)
        &&& self.hash_agrees(ctm)
    }

    /// The position with the bit of `sq` flipped in the sets of the side and
    /// kind of `code`, the key of `code` on `sq` folded into the hash, and
    /// `now` written to the mailbox.
    pub open spec fn toggled(self, sq: u8, code: u8, now: u8) -> Position {
        Position {
            colors: spec_array_update(
                self.colors,
                (code / 8) as int,
                self.colors[(code / 8) as int] ^ sq_bit(sq),
            ),
            pieces: spec_array_update(
                self.pieces,
                (code % 8) as int,
                self.pieces[(code % 8) as int] ^ sq_bit(sq),
            ),
            mailbox: spec_array_update(self.mailbox, sq as int, now),
            hash: self.hash ^ psq_key(code, sq),
            ..self
        }
    }

    /// The position after the piece `code` is put on `sq`.
    pub open spec fn with_piece(self, sq: u8, code: u8) -> Position {
        self.toggled(sq, code, code)
    }

    /// The position after the piece `code` is taken off `sq`.
    pub open spec fn without_piece(self, sq: u8, code: u8) -> Position {
        self.toggled(sq, code, NO_PIECE)
    }

    /// The position after `code` moves from `from` to `to`, taking what
    /// stands there (`victim`, which may be the empty code).
    pub open spec fn with_move(self, from: u8, code: u8, to: u8, victim: u8) -> Position {
        let cleared = if victim % 8 != NO_PIECE {
            self.without_piece(to, victim)
        } else {
            self
        };
        cleared.without_piece(from, code).with_piece(to, code)
    }

    /// The position with no piece, no right and no en-passant square.
    pub open spec fn blank() -> Position {
        Position {
            colors: spec_array_fill_for_copy_type(0u64),
            pieces: spec_array_fill_for_copy_type(0u64),
            mailbox: spec_array_fill_for_copy_type(NO_PIECE),
            king_sqs: spec_array_fill_for_copy_type(NO_SQUARE),
            hash: 0,
            ep_index: Square(NO_SQUARE),
            hm_clock: 0,
            castling: 0,
            checkers: 0,
            diago_pin_mask: 0,
            ortho_pin_mask: 0,
        }
    }

    /// A position with no piece, no right and no en-passant square.
    pub fn empty() -> (p: Position)
        ensures
            p == Position::blank(),
            p.colors@ == seq![0u64, 0u64],
            p.pieces@ == seq![0u64, 0u64, 0u64, 0u64, 0u64, 0u64],
            forall|sq: int| 0 <= sq < 64 ==> #[trigger] p.mailbox[sq] == NO_PIECE,
            p.king_sqs@ == seq![NO_SQUARE, NO_SQUARE],
            p.hash == 0,
            p.ep_index.0 == NO_SQUARE,
            p.hm_clock == 0,
            p.castling == 0,
            p.checkers == 0,
            p.diago_pin_mask == 0,
            p.ortho_pin_mask == 0,
    {
        let p = Position {
            colors: [0; 2],
            pieces: [0; 6],
            mailbox: [NO_PIECE; 64],
            king_sqs: [NO_SQUARE; 2],
            hash: 0,
            ep_index: Square(NO_SQUARE),
            hm_clock: 0,
            castling: 0,
            checkers: 0,
            diago_pin_mask: 0,
            ortho_pin_mask: 0,
        };
        assert(p.colors@ =~= seq![0u64, 0u64]);
        assert(p.pieces@ =~= seq![0u64, 0u64, 0u64, 0u64, 0u64, 0u64]);
        assert(p.king_sqs@ =~= seq![NO_SQUARE, NO_SQUARE]);
        p
    }

    /// Puts `piece` on `sq`.
    pub fn add_piece(&mut self, sq: Square, piece: Piece)
        requires
            sq.on_board(),
            piece.is_real(),
        ensures
            *final(self) == old(self).with_piece(sq.0, piece.0),
    {
        let b: u64 = 1u64 << (sq.0 as u64);
        let c = (piece.0 / 8) as usize;
        let k = (piece.0 % 8) as usize;
        self.colors[c] = self.colors[c] ^ b;
        self.pieces[k] = self.pieces[k] ^ b;
        self.mailbox[sq.0 as usize] = piece.0;
        self.hash = self.hash ^ zobrist_psq(piece, sq);
        proof {
            let want = old(self).with_piece(sq.0, piece.0);
            assert(self.colors@ =~= want.colors@);
            assert(self.pieces@ =~= want.pieces@);
            assert(self.mailbox@ =~= want.mailbox@);
        }
    }

    /// Takes `piece` off `sq`.
    pub fn remove_piece(&mut self, sq: Square, piece: Piece)
        requires
            sq.on_board(),
            piece.is_real(),
        ensures
            *final(self) == old(self).without_piece(sq.0, piece.0),
    {
        let b: u64 = 1u64 << (sq.0 as u64);
        let c = (piece.0 / 8) as usize;
        let k = (piece.0 % 8) as usize;
        self.colors[c] = self.colors[c] ^ b;
        self.pieces[k] = self.pieces[k] ^ b;
        self.mailbox[sq.0 as usize] = NO_PIECE;
        self.hash = self.hash ^ zobrist_psq(piece, sq);
        proof {
            let want = old(self).without_piece(sq.0, piece.0);
            assert(self.colors@ =~= want.colors@);
            assert(self.pieces@ =~= want.pieces@);
            assert(self.mailbox@ =~= want.mailbox@);
        }
    }

    /// Moves `piece` from `from` to `to`, taking `victim` off `to` first
    /// unless its kind is the empty one.
    pub fn move_piece(&mut self, from: Square, piece: Piece, to: Square, victim: Piece)
        requires
            from.on_board(),
            to.on_board(),
            piece.is_real(),
            victim.0 % 8 != NO_PIECE ==> victim.is_real(),
        ensures
            *final(self) == old(self).with_move(from.0, piece.0, to.0, victim.0),
    {
        if victim.0 % 8 != NO_PIECE {
            self.remove_piece(to, victim);
        }
        self.remove_piece(from, piece);
        self.add_piece(to, piece);
    }

    /// The piece on `sq`.
    pub fn piece_on_square(&self, sq: Square) -> (p: Piece)
        requires
            sq.on_board(),
        ensures
            p.0 == self.code_at(sq.0),
    {
        Piece(self.mailbox[sq.0 as usize])
    }

    /// All occupied squares.
    pub fn occupied(&self) -> (b: Bitboard)
        ensures
            b.0 == self.occupied_mask(),
    {
        Bitboard(self.colors[0] | self.colors[1])
    }

    /// The squares that hold a piece of kind `piece` and side `color`.
    pub fn colored_piece(&self, piece: u8, color: u8) -> (b: Bitboard)
        requires
            piece < 6,
            color < 2,
        ensures
            b.0 == self.piece_mask(piece, color),
    {
        Bitboard(self.colors[color as usize] & self.pieces[piece as usize])
    }

    /// Hands the move to the other side in the hash.
    pub fn switch_color(&mut self)
        ensures
            *final(self) == (Position { hash: old(self).hash ^ ctm_key(), ..*old(self) }),
    {
        self.hash = self.hash ^ zobrist_ctm();
    }
}

impl Position {
    /// Whether two positions are the same in every field.
    pub fn same(&self, other: &Position) -> (b: bool)
        ensures
            b == (*self == *other),
    {
        if self.hash != other.hash || self.ep_index.0 != other.ep_index.0 || self.hm_clock
            != other.hm_clock || self.castling != other.castling || self.checkers
            != other.checkers || self.diago_pin_mask != other.diago_pin_mask
            || self.ortho_pin_mask != other.ortho_pin_mask {
            return false;
        }
        if self.colors[0] != other.colors[0] || self.colors[1] != other.colors[1]
            || self.king_sqs[0] != other.king_sqs[0] || self.king_sqs[1] != other.king_sqs[1] {
            return false;
        }
        let mut k: usize = 0;
        while k < 6
            invariant
                k <= 6,
                forall|j: int| 0 <= j < k ==> #[trigger] self.pieces[j] == other.pieces[j],
            decreases 6 - k,
        {
            if self.pieces[k] != other.pieces[k] {
                return false;
            }
            k += 1;
        }
        let mut sq: usize = 0;
        while sq < 64
            invariant
                sq <= 64,
                forall|j: int| 0 <= j < sq ==> #[trigger] self.mailbox[j] == other.mailbox[j],
            decreases 64 - sq,
        {
            if self.mailbox[sq] != other.mailbox[sq] {
                return false;
            }
            sq += 1;
        }
        proof {
            assert(self.colors@ =~= other.colors@);
            assert(self.pieces@ =~= other.pieces@);
            assert(self.mailbox@ =~= other.mailbox@);
            assert(self.king_sqs@ =~= other.king_sqs@);
            assert(self.colors == other.colors);
            assert(self.pieces == other.pieces);
            assert(self.mailbox == other.mailbox);
            assert(self.king_sqs == other.king_sqs);
        }
        true
    }
}

} // verus!
