//! The board: a stack of positions, the side to move and the ply count.

use vstd::prelude::*;
use crate::board::position::Position;

verus! {

/// How many blank positions a new board starts with.
pub const INITIAL_STATES: usize = 256;

/// The game as it stands: every position since the board was set up, the
/// last one being the current one, the side to move (0 black, 1 white) and
/// the number of plies played.
#[derive(Debug, Clone)]
pub struct Board {
    pub states: Vec<Position>,
    pub ctm: u8,
    pub ply: i16,
}

/// What a board holds, as plain values.
pub struct BoardView {
    pub states: Seq<Position>,
    pub ctm: u8,
    pub ply: i16,
}

impl View for Board {
    type V = BoardView;

    open spec fn view(&self) -> BoardView {
        BoardView { states: self.states@, ctm: self.ctm, ply: self.ply }
    }
}

impl Board {
    /// The current position.
    pub open spec fn top(self) -> Position {
        self.states@.last()
    }

    /// Whether the board has a current position that is sound for the side
    /// to move.
    pub open spec fn wf(self) -> bool {
        &&& self.states@.len() > 0
        &&& self.ctm < 2
        &&& self.top().wf(self.ctm)
    }

    /// A board whose stack holds blank positions only, with black to move.
    pub fn new() -> (b: Board)
        ensures
            b.states@.len() == INITIAL_STATES,
            forall|i: int| 0 <= i < INITIAL_STATES ==> #[trigger] b.states@[i] == Position::blank(),
            b.ctm == 0,
            b.ply == 0,
    {
        let mut states: Vec<Position> = Vec::new();
        let mut i: usize = 0;
        while i < INITIAL_STATES
            invariant
                i <= INITIAL_STATES,
                states@.len() == i,
                forall|j: int| 0 <= j < i ==> #[trigger] states@[j] == Position::blank(),
            decreases INITIAL_STATES - i,
        {
            states.push(Position::empty());
            i += 1;
        }
        Board { states, ctm: 0, ply: 0 }
    }

    /// Forgets the history and makes `position` the current position, with
    /// `ctm` to move.
    pub fn load_state(&mut self, position: &Position, ctm: u8)
        ensures
            final(self).states@ == seq![*position],
            final(self).ctm == ctm,
            final(self).ply == old(self).ply,
    {
        self.states.clear();
        self.states.push(*position);
        self.ctm = ctm;
        assert(self.states@ =~= seq![*position]);
    }

    /// The current position.
    pub fn current_state(&self) -> (p: &Position)
        requires
            self.states@.len() > 0,
        ensures
            *p == self.top(),
    {
        &self.states[self.states.len() - 1]
    }

    /// The current position, to be changed in place.
    pub fn current_state_mut(&mut self) -> (p: &mut Position)
        requires
            old(self).states@.len() > 0,
        ensures
            *p == old(self).top(),
            final(self).states@ == old(self).states@.drop_last().push(*final(p)),
            final(self).ctm == old(self).ctm,
            final(self).ply == old(self).ply,
    {
        let i = self.states.len() - 1;
        &mut self.states[i]
    }
}

} // verus!
