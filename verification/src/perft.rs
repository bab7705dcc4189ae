//! Counting the move sequences of a given length, to test move generation.

use vstd::prelude::*;
use crate::board::laws::law_make_undo;
use crate::board::position::Position;
use crate::board::stack::Board;
use crate::types::movelist::{MoveList, MAX_MOVES};

verus! {

/// The number of sequences of `depth` legal moves from `p` with `ctm` to
/// move that begin with one of the first `k` legal moves. At depth 0 it is 1:
/// the empty sequence.
pub open spec fn perft_upto(p: Position, ctm: u8, depth: nat, k: nat) -> nat
    decreases depth, k,
{
    if depth == 0 {
        1
    } else if k == 0 {
        0
    } else {
        let next = p.successor(ctm, p.legal_moves(ctm)[k - 1]);
        let other = (1 - ctm) as u8;
        perft_upto(p, ctm, depth, (k - 1) as nat) + perft_upto(
            next,
            other,
            (depth - 1) as nat,
            next.legal_moves(other).len(),
        )
    }
}

/// The number of sequences of `depth` legal moves from `p` with `ctm` to move.
pub open spec fn perft_count(p: Position, ctm: u8, depth: nat) -> nat {
    perft_upto(p, ctm, depth, p.legal_moves(ctm).len())
}

/// Whether the move lists needed to count the sequences that begin with one
/// of the first `k` legal moves all fit: no position that has to be expanded
/// has more moves than a list holds.
pub open spec fn lists_fit_upto(p: Position, ctm: u8, depth: nat, k: nat) -> bool
    decreases depth, k,
{
    if depth <= 1 {
        true
    } else if k == 0 {
        p.legal_moves(ctm).len() <= MAX_MOVES
    } else {
        let next = p.successor(ctm, p.legal_moves(ctm)[k - 1]);
        let other = (1 - ctm) as u8;
        lists_fit_upto(p, ctm, depth, (k - 1) as nat) && lists_fit_upto(
            next,
            other,
            (depth - 1) as nat,
            next.legal_moves(other).len(),
        )
    }
}

/// Whether the sequences of `depth` moves from `p` can be counted: every move
/// list on the way fits, and the count fits into 64 bits.
pub open spec fn countable(p: Position, ctm: u8, depth: nat) -> bool {
    lists_fit_upto(p, ctm, depth, p.legal_moves(ctm).len()) && perft_count(p, ctm, depth)
        <= u64::MAX
}

/// With one move to go the count is the number of legal moves.
pub proof fn lemma_perft_one(p: Position, ctm: u8, k: nat)
    ensures
        perft_upto(p, ctm, 1, k) == k,
    decreases k,
{
    if k > 0 {
        lemma_perft_one(p, ctm, (k - 1) as nat);
        let next = p.successor(ctm, p.legal_moves(ctm)[k - 1]);
        let other = (1 - ctm) as u8;
        assert(perft_upto(next, other, 0, next.legal_moves(other).len()) == 1);
    }
}

/// Counting more first moves never lowers the count, and never makes lists
/// fit that did not.
pub proof fn lemma_perft_grows(p: Position, ctm: u8, depth: nat, j: nat, k: nat)
    requires
        j <= k,
    ensures
        perft_upto(p, ctm, depth, j) <= perft_upto(p, ctm, depth, k),
        lists_fit_upto(p, ctm, depth, k) ==> lists_fit_upto(p, ctm, depth, j),
    decreases k,
{
    if j < k {
        lemma_perft_grows(p, ctm, depth, j, (k - 1) as nat);
    }
}

/// The number of sequences of `depth` legal moves from the current position,
/// or `None` where it cannot be counted: a position on the way has more
/// moves than a list holds, or the count does not fit into 64 bits. The
/// board is left as it was.
pub fn perft(board: &mut Board, depth: u8) -> (r: Option<u64>)
    requires
        old(board).wf(),
    ensures
        final(board)@ == old(board)@,
        r == (if countable(old(board).top(), old(board).ctm, depth as nat) {
            Some(perft_count(old(board).top(), old(board).ctm, depth as nat) as u64)
        } else {
            None
        }),
    decreases depth,
{
    let ghost p = board.top();
    let ghost ctm = board.ctm;
    let ghost moves = p.legal_moves(ctm);
    if depth == 0 {
        return Some(1);
    }
    let n = board.get_move_count();
    if depth == 1 {
        proof {
            lemma_perft_one(p, ctm, moves.len());
        }
        return Some(n);
    }
    if n > MAX_MOVES as u64 {
        proof {
            lemma_perft_grows(p, ctm, depth as nat, 0, moves.len());
        }
        return None;
    }
    let mut list = MoveList::new();
    board.get_moves(&mut list);
    assert(list@ =~= moves);
    let mut total: u64 = 0;
    let mut i: usize = 0;
    while i < list.len()
        invariant
            board@ == old(board)@,
            board.wf(),
            p == board.top(),
            ctm == board.ctm,
            moves == p.legal_moves(ctm),
            list@ == moves,
            depth >= 2,
            i <= moves.len() <= MAX_MOVES,
            total == perft_upto(p, ctm, depth as nat, i as nat),
            lists_fit_upto(p, ctm, depth as nat, i as nat),
        decreases moves.len() - i,
    {
        let mov = list.get(i);
        let ghost before = board@;
        let ghost next = p.successor(ctm, mov);
        let ghost other = (1 - ctm) as u8;
        assert(moves.contains(mov));
        board.make_move(mov);
        let sub = perft(board, depth - 1);
        board.undo_move();
        proof {
            law_make_undo(before, mov);
            assert(board@ == before);
            assert(board.top() == p);
            lemma_perft_grows(p, ctm, depth as nat, (i + 1) as nat, moves.len());
        }
        match sub {
            None => {
                return None;
            },
            Some(c) => {
                match total.checked_add(c) {
                    None => {
                        return None;
                    },
                    Some(sum) => {
                        total = sum;
                    },
                }
            },
        }
        i += 1;
    }
    Some(total)
}

} // verus!
