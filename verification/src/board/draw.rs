//! Draws by the fifty-move rule and by repetition.

use vstd::prelude::*;
use crate::board::stack::Board;

verus! {

/// How high the halfmove clock may run before the game is drawn.
pub const CLOCK_LIMIT: u8 = 100;

impl Board {
    /// Whether the position `back` plies ago had the side to move of today
    /// and the hash of today, and lies within the reach of the halfmove
    /// clock.
    pub open spec fn repeats(self, back: int) -> bool {
        &&& 2 <= back <= self.top().hm_clock
        &&& back % 2 == 0
        &&& back < self.states@.len()
        &&& self.states@[self.states@.len() - 1 - back].hash == self.top().hash
    }

    /// Whether the game is drawn as the search sees it: the halfmove clock
    /// has reached 100, or the current position has stood on the board
    /// before since the last capture or pawn move. One repetition is enough.
    pub open spec fn drawn(self) -> bool {
        self.top().hm_clock >= CLOCK_LIMIT || exists|back: int| self.repeats(back)
    }

    /// Whether the game is drawn by the fifty-move rule or by repetition.
    pub fn is_drawn(&self) -> (b: bool)
        requires
            self.states@.len() > 0,
        ensures
            b == self.drawn(),
    {
        let state = self.current_state();
        if state.hm_clock >= CLOCK_LIMIT {
            return true;
        }
        let len = self.states.len();
        let hash = state.hash;
        let clock = state.hm_clock as usize;
        let mut back: usize = 2;
        while back <= clock && back < len
            invariant
                len == self.states@.len(),
                len > 0,
                hash == self.top().hash,
                clock == self.top().hm_clock,
                clock < 100,
                2 <= back <= 102,
                back % 2 == 0,
                forall|d: int| d < back ==> !self.repeats(d),
            decreases 200 - back,
        {
            if self.states[len - 1 - back].hash == hash {
                assert(self.repeats(back as int));
                return true;
            }
            back += 2;
        }
        false
    }
}

} // verus!
