//! What the engine is asked to do, and the options it is run with.

use vstd::prelude::*;

verus! {

/// The commands that the engine knows.
#[derive(Debug, Copy, Clone, PartialEq, Eq, Structural)]
pub enum CommandTypes {
    Uci,
    IsReady,
    Position,
    NewGame,
    Go,
    PrintState,
    Value,
    Perft,
    SplitPerft,
    PerftSuite,
    MakeMove,
    SetOption,
    Bench,
    GetFen,
    Policy,
    Tunables,
    Empty,
    Invalid,
    Quit,
}

/// The options that the engine is run with.
#[derive(Debug, Copy, Clone, PartialEq, Eq, Structural)]
pub struct UciOptions {
    pub more_info: bool,
    pub tree_size: u64,
    pub thread_count: u64,
}

impl UciOptions {
    /// The options as they stand when nothing was set: no extra output, no
    /// size given for the tree, one thread.
    pub fn new() -> (o: UciOptions)
        ensures
            o == (UciOptions { more_info: false, tree_size: u64::MAX, thread_count: 1 }),
    {
        UciOptions { more_info: false, tree_size: u64::MAX, thread_count: 1 }
    }
}

} // verus!
