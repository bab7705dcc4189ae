//! What holds of every sound position and of every move made and taken back.

use vstd::prelude::*;
use crate::bits::{bit, lemma_bit_ops, lemma_singleton, lsb, popcount};
use crate::board::make::{made, undone};
use crate::board::position::{full_hash, Position};
use crate::board::stack::BoardView;
use crate::types::moves::Move;
use crate::types::piece::{is_piece_code, piece_code, KING};

verus! {

/// In a sound position a square is in the set of a kind exactly when the
/// mailbox has a piece of that kind there, and in the set of a side exactly
/// when the mailbox has a piece of that side there.
pub proof fn law_sets_match_mailbox(p: Position, ctm: u8, sq: u8, kind: u8, color: u8)
    requires
        p.wf(ctm),
        sq < 64,
        kind < 6,
        color < 2,
    ensures
        bit(p.pieces[kind as int], sq) <==> is_piece_code(p.mailbox[sq as int])
            && p.mailbox[sq as int] % 8 == kind,
        bit(p.colors[color as int], sq) <==> is_piece_code(p.mailbox[sq as int])
            && p.mailbox[sq as int] / 8 == color,
{
    assert(p.square_agrees(sq));
}

/// In a sound position each side has exactly one king, and it stands on the
/// square that `king_sqs` names.
pub proof fn law_one_king(p: Position, ctm: u8, color: u8)
    requires
        p.wf(ctm),
        color < 2,
    ensures
        popcount(p.piece_mask(KING, color)) == 1,
        lsb(p.piece_mask(KING, color)) == p.king_sqs[color as int],
{
    let x = p.piece_mask(KING, color);
    let k = p.king_sqs[color as int];
    assert(p.king_placed(0) && p.king_placed(1));
    assert forall|j: u8| j < 64 implies (#[trigger] bit(x, j) <==> j == k) by {
        assert(p.square_agrees(j));
        lemma_bit_ops(p.colors[color as int], p.pieces[5], j);
        if j == k {
            assert(p.mailbox[j as int] == piece_code(KING, color));
        }
        if bit(x, j) {
            assert(p.mailbox[j as int] == piece_code(KING, color));
        }
    }
    lemma_singleton(x, k);
}

/// In a sound position the stored hash is the hash computed from scratch:
/// the keys of all pieces on their squares, combined, with the side-to-move
/// key when white is to move.
pub proof fn law_hash_from_scratch(p: Position, ctm: u8)
    requires
        p.wf(ctm),
    ensures
        p.hash == full_hash(p.mailbox@, ctm),
{
}

/// A move made on a sound position leaves a sound position for the other
/// side.
pub proof fn law_move_keeps_soundness(p: Position, ctm: u8, m: Move)
    requires
        p.wf(ctm),
        p.legal_moves(ctm).contains(m),
    ensures
        p.successor(ctm, m).wf((1 - ctm) as u8),
{
    p.lemma_legal_accepted(ctm, m);
    p.lemma_moved_wf(ctm, m);
}

/// A move made and taken back leaves the board as it was: every position of
/// the stack, hash included, the side to move and the ply count.
pub proof fn law_make_undo(b: BoardView, m: Move)
    requires
        b.ctm < 2,
    ensures
        undone(made(b, m)) == b,
{
    let after = made(b, m);
    assert(after.states.drop_last() =~= b.states);
}

} // verus!
