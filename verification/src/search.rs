//! Picking a move at random.

use vstd::prelude::*;
use rand::Rng;
use crate::board::stack::Board;
use crate::types::movelist::{MoveList, MAX_MOVES};
use crate::types::moves::Move;

verus! {

/// `rand::rng().random_range(0..bound)` gives a number from 0 up to, but
/// not including, `bound`, which must not be zero.
#[verifier::external_body]
fn random_below(bound: usize) -> (n: usize)
    requires
        bound > 0,
    ensures
        n < bound,
{
    rand::rng().random_range(0..bound)
}

/// One of the legal moves of the current position, picked at random, or
/// nothing where there is no legal move or there are more than a list
/// holds.
pub fn random(board: &Board) -> (r: Option<Move>)
    requires
        board.wf(),
    ensures
        r.is_some() == (0 < board.legal_moves().len() <= MAX_MOVES),
        r.is_some() ==> board.legal_moves().contains(r.unwrap()),
{
    let n = board.get_move_count();
    if n == 0 || n > MAX_MOVES as u64 {
        return None;
    }
    let mut list = MoveList::new();
    board.get_moves(&mut list);
    assert(list@ =~= board.legal_moves());
    let index = random_below(list.len());
    Some(list.get(index))
}

} // verus!
