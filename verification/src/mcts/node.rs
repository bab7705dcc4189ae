//! The nodes of the search tree.

use vstd::prelude::*;
use crate::types::moves::Move;

verus! {

/// The bit pattern of the 32-bit float 1.0.
pub const ONE_BITS: u32 = 0x3f80_0000;

/// The bit pattern of the 32-bit float 0.5.
pub const HALF_BITS: u32 = 0x3f00_0000;

/// The bit pattern of the 32-bit float 0.0.
pub const ZERO_BITS: u32 = 0;

/// How a game has ended for the side to move at a node, if it has.
#[derive(Debug, Copy, Clone, PartialEq, Eq, Structural)]
pub enum GameResult {
    Win,
    Draw,
    Loss,
    Ongoing,
}

impl GameResult {
    /// The score of a finished game as the bit pattern of a 32-bit float:
    /// 1.0 for a win, 0.5 for a draw, 0.0 for a loss; nothing while the game
    /// goes on.
    pub open spec fn score_bits(self) -> Option<u32> {
        match self {
            GameResult::Win => Some(ONE_BITS),
            GameResult::Draw => Some(HALF_BITS),
            GameResult::Loss => Some(ZERO_BITS),
            GameResult::Ongoing => None,
        }
    }

    /// The score of a finished game as the bit pattern of a 32-bit float.
    pub fn score(self) -> (s: Option<u32>)
        ensures
            s == self.score_bits(),
    {
        match self {
            GameResult::Win => Some(ONE_BITS),
            GameResult::Draw => Some(HALF_BITS),
            GameResult::Loss => Some(ZERO_BITS),
            GameResult::Ongoing => None,
        }
    }

    /// Whether the game has ended.
    pub fn is_terminal(self) -> (b: bool)
        ensures
            b == (self != GameResult::Ongoing),
    {
        match self {
            GameResult::Ongoing => false,
            _ => true,
        }
    }
}

/// A node of the search tree.
///
/// `mov` is the move that leads to the node. `first_child` refers to the
/// first of `child_count` children, which stand one after the other; its top
/// bit names the half they stand in. `total_score`, `policy` and
/// `gini_impurity` are 32-bit floats, kept as their bit patterns: the tree
/// stores them and hands them back, it never computes with them.
#[derive(Debug, Copy, Clone, PartialEq, Eq, Structural)]
pub struct Node {
    pub mov: Move,
    pub first_child: u32,
    pub child_count: u8,
    pub visits: u32,
    pub total_score: u32,
    pub result: GameResult,
    pub policy: u32,
    pub gini_impurity: u32,
}

impl Node {
    /// A node that has not been visited: no children, no score, the game
    /// going on.
    pub open spec fn fresh(mov: Move, policy: u32) -> Node {
        Node {
            mov,
            first_child: 0,
            child_count: 0,
            visits: 0,
            total_score: ZERO_BITS,
            result: GameResult::Ongoing,
            policy,
            gini_impurity: ZERO_BITS,
        }
    }

    /// A node for the move `mov` with the prior `policy`, not yet visited.
    pub fn new(mov: Move, policy: u32) -> (n: Node)
        ensures
            n == Node::fresh(mov, policy),
    {
        Node {
            mov,
            first_child: 0,
            child_count: 0,
            visits: 0,
            total_score: ZERO_BITS,
            result: GameResult::Ongoing,
            policy,
            gini_impurity: ZERO_BITS,
        }
    }

    /// The references of the children: from `first_child` on, `child_count`
    /// of them.
    pub fn children_range(&self) -> (r: core::ops::Range<usize>)
        requires
            self.first_child + self.child_count <= usize::MAX,
        ensures
            r.start == self.first_child,
            r.end == self.first_child + self.child_count,
    {
        let start = self.first_child as usize;
        let end = start + self.child_count as usize;
        start..end
    }

    /// Forgets the children.
    pub fn dereference(&mut self)
        ensures
            *final(self) == (Node { first_child: 0, child_count: 0, ..*old(self) }),
    {
        self.first_child = 0;
        self.child_count = 0;
    }
}

} // verus!
