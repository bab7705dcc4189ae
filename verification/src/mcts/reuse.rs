//! Keeping the tree from one search to the next: looking for the node that
//! stands for the position the new search starts from.

use vstd::prelude::*;
use crate::board::laws::law_make_undo;
use crate::board::position::Position;
use crate::board::stack::Board;
use crate::mcts::node::Node;
use crate::mcts::tree::{SearchTree, HALF_BIT};
use crate::types::moves::Move;
use crate::types::movelist::{MoveList, MAX_MOVES};

verus! {

/// The reference that stands for "no node".
pub const NOT_FOUND: usize = 0x7fff_ffff;

/// Whether the children of the node `start` can be gone through from the
/// position `p`: they stand within the slots of their half, and the moves
/// of the position fit a list.
pub open spec fn explorable(tree: SearchTree, p: Position, ctm: u8, start: usize) -> bool {
    let node = tree.node(start);
    node.first_child % (HALF_BIT as u32) + node.child_count <= tree.half_size && p.legal_moves(
        ctm,
    ).len() <= MAX_MOVES
}

/// The node at or below `start`, at most `depth` moves down, that stands
/// for the position `target`, when `start` stands for `p`; the first one in
/// the order of the children, or `NOT_FOUND`.
pub open spec fn found(
    tree: SearchTree,
    p: Position,
    ctm: u8,
    start: usize,
    target: Position,
    depth: nat,
) -> usize
    decreases depth, 300nat,
{
    if p == target {
        start
    } else if start == NOT_FOUND || depth == 0 || !explorable(tree, p, ctm, start) {
        NOT_FOUND
    } else {
        found_among(tree, p, ctm, start, target, depth, 0)
    }
}

/// The same, looking only below the children of `start` from the `k`-th
/// on. A child whose move is not legal in `p` is passed over.
pub open spec fn found_among(
    tree: SearchTree,
    p: Position,
    ctm: u8,
    start: usize,
    target: Position,
    depth: nat,
    k: nat,
) -> usize
    decreases depth, 256 - k,
{
    let node = tree.node(start);
    if depth == 0 || k >= node.child_count {
        NOT_FOUND
    } else {
        let child = (node.first_child + k) as usize;
        let m = tree.node(child).mov;
        let below = if p.legal_moves(ctm).contains(m) {
            found(tree, p.successor(ctm, m), (1 - ctm) as u8, child, target, (depth - 1) as nat)
        } else {
            NOT_FOUND
        };
        if below != NOT_FOUND {
            below
        } else {
            found_among(tree, p, ctm, start, target, depth, k + 1)
        }
    }
}

/// Looks at and below the node `start`, at most `depth` moves down, for the
/// node that stands for the position `state`, when `start` stands for the
/// current position of `board`. The moves of the children are made on the
/// board and taken back; the board is left as it was.
pub fn find(tree: &SearchTree, board: &mut Board, start: usize, state: &Position, depth: u8) -> (r:
    usize)
    requires
        tree.wf(),
        old(board).wf(),
        start == NOT_FOUND || (start / HALF_BIT < 2 && start % HALF_BIT < tree.half_size),
    ensures
        final(board)@ == old(board)@,
        r == found(*tree, old(board).top(), old(board).ctm, start, *state, depth as nat),
    decreases depth,
{
    let ghost p = board.top();
    let ghost ctm = board.ctm;
    if board.current_state().same(state) {
        return start;
    }
    if start == NOT_FOUND || depth == 0 {
        return NOT_FOUND;
    }
    let node = *tree.index(start);
    let first = node.first_child;
    let slot = (first % (HALF_BIT as u32)) as usize;
    let count = node.child_count as usize;
    if slot + count > tree.half_size {
        return NOT_FOUND;
    }
    if board.get_move_count() > MAX_MOVES as u64 {
        return NOT_FOUND;
    }
    let mut list = MoveList::new();
    board.get_moves(&mut list);
    assert(list@ =~= p.legal_moves(ctm));
    let mut k: usize = 0;
    while k < count
        invariant
            k <= count,
            depth > 0,
            tree.wf(),
            board.wf(),
            board@ == old(board)@,
            p == board.top(),
            ctm == board.ctm,
            list@ == p.legal_moves(ctm),
            node == tree.node(start),
            first == node.first_child,
            count == node.child_count,
            slot == first % (HALF_BIT as u32),
            slot + count <= tree.half_size,
            *state != p,
            start != NOT_FOUND,
            explorable(*tree, p, ctm, start),
            found(*tree, p, ctm, start, *state, depth as nat) == found_among(
                *tree,
                p,
                ctm,
                start,
                *state,
                depth as nat,
                k as nat,
            ),
        decreases count - k,
    {
        let child = first as usize + k;
        let mov = tree.index(child).mov;
        if list.contains(mov) {
            let ghost before = board@;
            board.make_move(mov);
            let below = find(tree, board, child, state, depth - 1);
            board.undo_move();
            proof {
                law_make_undo(before, mov);
                assert(board@ == before);
                assert(board.top() == p);
            }
            if below != NOT_FOUND {
                return below;
            }
        }
        k += 1;
    }
    NOT_FOUND
}

/// Whether `reference` names a slot of the tree.
pub open spec fn names_slot(tree: SearchTree, reference: usize) -> bool {
    reference / HALF_BIT < 2 && reference % HALF_BIT < tree.half_size
}

/// What is found is a slot of the tree.
pub proof fn lemma_found_names_slot(
    tree: SearchTree,
    p: Position,
    ctm: u8,
    start: usize,
    target: Position,
    depth: nat,
)
    requires
        tree.wf(),
        start == NOT_FOUND || names_slot(tree, start),
    ensures
        found(tree, p, ctm, start, target, depth) == NOT_FOUND || names_slot(
            tree,
            found(tree, p, ctm, start, target, depth),
        ),
    decreases depth, 300nat,
{
    if p != target && start != NOT_FOUND && depth != 0 && explorable(tree, p, ctm, start) {
        lemma_found_among_names_slot(tree, p, ctm, start, target, depth, 0);
    }
}

/// What is found below the children is a slot of the tree.
pub proof fn lemma_found_among_names_slot(
    tree: SearchTree,
    p: Position,
    ctm: u8,
    start: usize,
    target: Position,
    depth: nat,
    k: nat,
)
    requires
        tree.wf(),
        names_slot(tree, start),
        explorable(tree, p, ctm, start),
    ensures
        found_among(tree, p, ctm, start, target, depth, k) == NOT_FOUND || names_slot(
            tree,
            found_among(tree, p, ctm, start, target, depth, k),
        ),
    decreases depth, 256 - k,
{
    let node = tree.node(start);
    if depth != 0 && k < node.child_count {
        let child = (node.first_child + k) as usize;
        let m = tree.node(child).mov;
        assert(names_slot(tree, child)) by {
            let half = node.first_child / (HALF_BIT as u32);
            let slot = node.first_child % (HALF_BIT as u32);
            assert(half == 0 || half == 1);
            assert(node.first_child == half * HALF_BIT + slot);
        }
        if p.legal_moves(ctm).contains(m) {
            lemma_found_names_slot(
                tree,
                p.successor(ctm, m),
                (1 - ctm) as u8,
                child,
                target,
                (depth - 1) as nat,
            );
        }
        lemma_found_among_names_slot(tree, p, ctm, start, target, depth, k + 1);
    }
}

/// How far below the old root the root of a new search is looked for.
pub const REUSE_DEPTH: u8 = 2;

/// The tree as a new search takes it over, when the old root stands for the
/// position `p` and the new search starts from `target`.
///
/// An empty tree gets a fresh root. Else the node that stands for `target`
/// is looked for at and below the old root; where it is found and has
/// children, it becomes the root; where not, the tree is emptied and gets a
/// fresh root.
pub open spec fn taken_over(
    before: SearchTree,
    after: SearchTree,
    p: Position,
    ctm: u8,
    target: Position,
) -> bool {
    let root = (before.current_half * HALF_BIT) as usize;
    let at = found(before, p, ctm, root, target, REUSE_DEPTH as nat);
    let fresh = Node::fresh(Move(0), 0);
    if before.halves[0].length == 0 && before.halves[1].length == 0 {
        &&& after.current_half == before.current_half
        &&& after.stale() == before.stale()
        &&& after.current().length == 1
        &&& after.current().nodes@ == before.current().nodes@.update(0, fresh)
    } else if at != NOT_FOUND && before.node(at).child_count != 0 {
        &&& after.current_half == before.current_half
        &&& after.stale() == before.stale()
        &&& after.current().length == before.current().length
        &&& after.current().nodes@ == before.current().nodes@.update(0, before.node(at))
    } else {
        &&& after.current_half == 0
        &&& after.halves[1].length == 0
        &&& after.halves[1].nodes@ == before.halves[1].nodes@
        &&& after.halves[0].length == 1
        &&& after.halves[0].nodes@ == before.halves[0].nodes@.update(0, fresh)
    }
}

/// Makes the tree ready for a search from the position `state`, when its
/// root stands for the current position of `board`: the tree of the last
/// search is kept from the node on that stands for `state`, where there is
/// one with children at most two moves below the root. The board is left as
/// it was.
pub fn take_over(tree: &mut SearchTree, board: &mut Board, state: &Position)
    requires
        old(tree).wf(),
        old(tree).half_size > 0,
        old(board).wf(),
    ensures
        final(tree).wf(),
        final(tree).half_size == old(tree).half_size,
        final(board)@ == old(board)@,
        taken_over(*old(tree), *final(tree), old(board).top(), old(board).ctm, *state),
{
    let fresh = Node::new(Move::null(), 0);
    if tree.is_empty() {
        let _ = tree.push(fresh);
        return;
    }
    let root = tree.root_node();
    let at = find(tree, board, root, state, REUSE_DEPTH);
    proof {
        lemma_found_names_slot(
            *tree,
            old(board).top(),
            old(board).ctm,
            root,
            *state,
            REUSE_DEPTH as nat,
        );
    }
    if at != NOT_FOUND {
        let node = *tree.index(at);
        if node.child_count != 0 {
            let slot = tree.index_mut(root);
            *slot = node;
            return;
        }
    }
    tree.reset();
    let _ = tree.push(fresh);
}

} // verus!
