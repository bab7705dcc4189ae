//! Growing the tree: what to do at a node that has no children yet, and
//! what a visit leaves behind.

use vstd::prelude::*;
use crate::board::stack::Board;
use crate::mcts::node::{GameResult, Node};
use crate::mcts::tree::{SearchTree, HALF_BIT};
use crate::types::movelist::{MoveList, MAX_MOVES};

verus! {

/// What a visit does at a node.
#[derive(Debug, Copy, Clone, PartialEq, Eq, Structural)]
pub enum Visit {
    /// The node is scored where it stands: the game is over there, or it
    /// was never visited.
    Score,
    /// The node is given its children first, then the visit goes on below.
    Expand,
    /// The visit goes on below one of the children.
    Descend,
}

/// What a visit does at `node`: it stops and scores the node where the game
/// is over or the node was never visited; else it goes on below, after the
/// node has got its children where it has none.
pub fn plan_visit(node: &Node) -> (v: Visit)
    ensures
        v == (if node.result != GameResult::Ongoing || node.visits == 0 {
            Visit::Score
        } else if node.child_count == 0 {
            Visit::Expand
        } else {
            Visit::Descend
        }),
{
    if node.result.is_terminal() || node.visits == 0 {
        Visit::Score
    } else if node.child_count == 0 {
        Visit::Expand
    } else {
        Visit::Descend
    }
}

/// What is to be done at a node without children.
pub enum Expansion {
    /// The game is over at the node, with this result for the side to move.
    Terminal(GameResult),
    /// The current half cannot hold the children.
    OutOfSpace,
    /// The position has more moves than a list holds.
    Crowded,
    /// The node gets a child for each of these moves.
    Children(MoveList),
}

/// Whether `e` is what is to be done at a node with the position of `board`
/// in `tree`: the node is a draw where the game is drawn, and a loss or a
/// draw where there is no legal move, as the side to move is in check or
/// not; else it gets the legal moves as children, unless a list or the
/// current half cannot hold them.
pub open spec fn planned(tree: SearchTree, board: Board, e: Expansion) -> bool {
    let moves = board.legal_moves();
    if board.drawn() {
        e == Expansion::Terminal(GameResult::Draw)
    } else if moves.len() == 0 {
        e == Expansion::Terminal(
            if board.top().checkers != 0 {
                GameResult::Loss
            } else {
                GameResult::Draw
            },
        )
    } else if moves.len() > MAX_MOVES {
        e == Expansion::Crowded
    } else if tree.current().length + moves.len() >= tree.half_size {
        e == Expansion::OutOfSpace
    } else {
        match e {
            Expansion::Children(list) => list@ == moves,
            _ => false,
        }
    }
}

/// Decides what is to be done at a node without children that stands for
/// the current position of `board`.
pub fn plan_expansion(tree: &SearchTree, board: &Board) -> (e: Expansion)
    requires
        tree.wf(),
        board.wf(),
    ensures
        planned(*tree, *board, e),
{
    if board.is_drawn() {
        return Expansion::Terminal(GameResult::Draw);
    }
    let n = board.get_move_count();
    if n == 0 {
        return Expansion::Terminal(
            if board.in_check() {
                GameResult::Loss
            } else {
                GameResult::Draw
            },
        );
    }
    if n > MAX_MOVES as u64 {
        return Expansion::Crowded;
    }
    let used = tree.next() % HALF_BIT;
    assert(used == tree.current().length) by {
        assert(tree.current_half == 0 || tree.current_half == 1);
    }
    if used + n as usize >= tree.half_size {
        return Expansion::OutOfSpace;
    }
    let mut list = MoveList::new();
    board.get_moves(&mut list);
    assert(list@ =~= board.legal_moves());
    Expansion::Children(list)
}

impl SearchTree {
    /// Gives the node `node_idx` a child for each move of `moves`, with the
    /// priors of `priors` in the same order, and notes `gini` at the node.
    /// The children take the next slots of the current half.
    pub fn attach_children(
        &mut self,
        node_idx: usize,
        moves: &MoveList,
        priors: &Vec<u32>,
        gini: u32,
    )
        requires
            old(self).wf(),
            old(self).names_live(node_idx),
            moves@.len() == priors@.len(),
            old(self).current().length + moves@.len() < old(self).half_size,
        ensures
            final(self).wf(),
            final(self).current_half == old(self).current_half,
            final(self).half_size == old(self).half_size,
            final(self).stale() == old(self).stale(),
            final(self).current().length == old(self).current().length + moves@.len(),
            final(self).node(node_idx) == (Node {
                first_child: (old(self).current_half * HALF_BIT + old(self).current().length) as u32,
                child_count: moves@.len() as u8,
                gini_impurity: gini,
                ..old(self).node(node_idx)
            }),
            forall|i: int|
                0 <= i < moves@.len() ==> #[trigger] final(self).current().nodes@[old(self).current().length + i] == Node::fresh(moves@[i], priors@[i]),
            forall|i: int|
                0 <= i < old(self).current().length && i != node_idx % HALF_BIT
                    ==> #[trigger] final(self).current().nodes@[i] == old(self).current().nodes@[i],
            old(self).children_in_half() ==> final(self).children_in_half(),
    {
        let cur = self.current_half;
        let start = self.halves[cur].len();
        let count = moves.len();
        let slot = self.halves[cur].index_mut(node_idx % HALF_BIT);
        slot.first_child = (cur * HALF_BIT + start) as u32;
        slot.child_count = count as u8;
        slot.gini_impurity = gini;
        let ghost marked = *self;
        let ghost parent_ind = (node_idx % HALF_BIT) as int;
        let ghost parent_now = Node {
            first_child: (cur * HALF_BIT + start) as u32,
            child_count: count as u8,
            gini_impurity: gini,
            ..old(self).node(node_idx)
        };
        proof {
            assert(cur == 0 || cur == 1);
            assert(parent_now.first_child / (HALF_BIT as u32) == cur);
            assert(parent_now.first_child % (HALF_BIT as u32) == start);
        }
        let mut i: usize = 0;
        while i < count
            invariant
                i <= count,
                cur < 2,
                0 <= parent_ind < start,
                marked.current().nodes@ == old(self).current().nodes@.update(
                    parent_ind,
                    parent_now,
                ),
                marked.current().nodes@.len() == self.half_size,
                old(self).current().nodes@.len() == self.half_size,
                count == moves@.len(),
                count == priors@.len(),
                start + count < self.half_size,
                start == old(self).current().length,
                self.wf(),
                self.current_half == cur,
                self.half_size == old(self).half_size,
                self.stale() == old(self).stale(),
                self.current().length == start + i,
                forall|j: int|
                    0 <= j < i ==> #[trigger] self.current().nodes@[start + j] == Node::fresh(
                        moves@[j],
                        priors@[j],
                    ),
                forall|j: int|
                    0 <= j < start ==> #[trigger] self.current().nodes@[j]
                        == marked.current().nodes@[j],
            decreases count - i,
        {
            let node = Node::new(moves.get(i), priors[i]);
            let _ = self.halves[cur].push(node);
            i += 1;
        }
        proof {
            if old(self).children_in_half() {
                assert forall|j: int| 0 <= j < self.current().length implies {
                    let n = #[trigger] self.current().nodes@[j];
                    n.child_count == 0 || (n.first_child / (HALF_BIT as u32) == self.current_half
                        && n.first_child % (HALF_BIT as u32) + n.child_count
                        <= self.current().length)
                } by {
                    if j < start {
                        assert(self.current().nodes@[j] == marked.current().nodes@[j]);
                        if j != parent_ind {
                            assert(self.current().nodes@[j] == old(self).current().nodes@[j]);
                        } else {
                            assert(self.current().nodes@[j] == parent_now);
                        }
                    } else {
                        assert(self.current().nodes@[start + (j - start)] == Node::fresh(
                            moves@[j - start],
                            priors@[j - start],
                        ));
                    }
                }
            }
        }
    }

    /// Notes a visit at the node `index`: one more visit, and `total_score`
    /// as the new sum of scores. The count of visits stops at the largest
    /// number it can hold.
    pub fn record_visit(&mut self, index: usize, total_score: u32)
        requires
            old(self).wf(),
            old(self).names_live(index),
        ensures
            final(self).wf(),
            final(self).current_half == old(self).current_half,
            final(self).half_size == old(self).half_size,
            final(self).stale() == old(self).stale(),
            final(self).current().length == old(self).current().length,
            final(self).current().nodes@ == old(self).current().nodes@.update(
                (index % HALF_BIT) as int,
                Node {
                    visits: if old(self).node(index).visits < u32::MAX {
                        (old(self).node(index).visits + 1) as u32
                    } else {
                        u32::MAX
                    },
                    total_score,
                    ..old(self).node(index)
                },
            ),
            old(self).children_in_half() ==> final(self).children_in_half(),
    {
        let cur = self.current_half;
        let slot = self.halves[cur].index_mut(index % HALF_BIT);
        if slot.visits < u32::MAX {
            slot.visits = slot.visits + 1;
        }
        slot.total_score = total_score;
        proof {
            if old(self).children_in_half() {
                assert forall|j: int| 0 <= j < self.current().length implies {
                    let n = #[trigger] self.current().nodes@[j];
                    n.child_count == 0 || (n.first_child / (HALF_BIT as u32) == self.current_half
                        && n.first_child % (HALF_BIT as u32) + n.child_count
                        <= self.current().length)
                } by {
                    assert(old(self).current().nodes@[j].child_count
                        == self.current().nodes@[j].child_count);
                }
            }
        }
    }

    /// Notes at the node `index` how the game has ended there.
    pub fn set_result(&mut self, index: usize, result: GameResult)
        requires
            old(self).wf(),
            old(self).names_live(index),
        ensures
            final(self).wf(),
            final(self).current_half == old(self).current_half,
            final(self).half_size == old(self).half_size,
            final(self).stale() == old(self).stale(),
            final(self).current().length == old(self).current().length,
            final(self).current().nodes@ == old(self).current().nodes@.update(
                (index % HALF_BIT) as int,
                Node { result, ..old(self).node(index) },
            ),
            old(self).children_in_half() ==> final(self).children_in_half(),
    {
        let cur = self.current_half;
        let slot = self.halves[cur].index_mut(index % HALF_BIT);
        slot.result = result;
        proof {
            if old(self).children_in_half() {
                assert forall|j: int| 0 <= j < self.current().length implies {
                    let n = #[trigger] self.current().nodes@[j];
                    n.child_count == 0 || (n.first_child / (HALF_BIT as u32) == self.current_half
                        && n.first_child % (HALF_BIT as u32) + n.child_count
                        <= self.current().length)
                } by {
                    assert(old(self).current().nodes@[j].child_count
                        == self.current().nodes@[j].child_count);
                }
            }
        }
    }
}

} // verus!
