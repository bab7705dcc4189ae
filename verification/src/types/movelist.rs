//! The list a position's moves are generated into: at most 218 moves, held
//! inline.

use vstd::prelude::*;
use arrayvec::ArrayVec;
use crate::types::moves::Move;

verus! {

/// The most moves a list holds.
pub const MAX_MOVES: usize = 218;

/// `arrayvec::ArrayVec`: a vector with a fixed capacity, held inline. Nothing
/// is said of what is inside a value of it but through `packed_items`.
#[verifier::external_type_specification]
#[verifier::external_body]
#[verifier::reject_recursive_types(T)]
pub struct ExArrayVec<T, const CAP: usize>(ArrayVec<T, CAP>);

/// The packed moves that a list holds, first to last.
pub uninterp spec fn packed_items(list: ArrayVec<u16, 218>) -> Seq<u16>;

/// `ArrayVec::new` makes a list with nothing in it.
#[verifier::external_body]
fn packed_new() -> (list: ArrayVec<u16, 218>)
    ensures
        packed_items(list) == Seq::<u16>::empty(),
{
    ArrayVec::new()
}

/// `ArrayVec::len` is the number of items held.
#[verifier::external_body]
fn packed_len(list: &ArrayVec<u16, 218>) -> (n: usize)
    ensures
        n == packed_items(*list).len(),
        n <= 218,
{
    list.len()
}

/// `ArrayVec::push` appends the item; it must not be called on a full list.
#[verifier::external_body]
fn packed_push(list: &mut ArrayVec<u16, 218>, item: u16)
    requires
        packed_items(*old(list)).len() < 218,
    ensures
        packed_items(*final(list)) == packed_items(*old(list)).push(item),
{
    list.push(item)
}

/// Indexing an `ArrayVec` below its length gives the item at that place.
#[verifier::external_body]
fn packed_get(list: &ArrayVec<u16, 218>, i: usize) -> (item: u16)
    requires
        i < packed_items(*list).len(),
    ensures
        item == packed_items(*list)[i as int],
{
    list[i]
}

/// `ArrayVec::clear` removes every item.
#[verifier::external_body]
fn packed_clear(list: &mut ArrayVec<u16, 218>)
    ensures
        packed_items(*final(list)) == Seq::<u16>::empty(),
{
    list.clear()
}

/// A list of moves with room for 218.
pub struct MoveList {
    pub packed: ArrayVec<u16, 218>,
}

impl View for MoveList {
    type V = Seq<Move>;

    open spec fn view(&self) -> Seq<Move> {
        Seq::new(packed_items(self.packed).len(), |i: int| Move(packed_items(self.packed)[i]))
    }
}

impl MoveList {
    /// An empty list.
    pub fn new() -> (list: MoveList)
        ensures
            list@ == Seq::<Move>::empty(),
    {
        let list = MoveList { packed: packed_new() };
        assert(list@ =~= Seq::<Move>::empty());
        list
    }

    /// The number of moves held.
    pub fn len(&self) -> (n: usize)
        ensures
            n == self@.len(),
            n <= MAX_MOVES,
    {
        packed_len(&self.packed)
    }

    /// Whether the list holds no move.
    pub fn is_empty(&self) -> (b: bool)
        ensures
            b == (self@.len() == 0),
    {
        packed_len(&self.packed) == 0
    }

    /// Appends a move to a list that is not full.
    pub fn push(&mut self, mov: Move)
        requires
            old(self)@.len() < MAX_MOVES,
        ensures
            final(self)@ == old(self)@.push(mov),
    {
        packed_push(&mut self.packed, mov.0);
        assert(self@ =~= old(self)@.push(mov));
    }

    /// The move at place `i`.
    pub fn get(&self, i: usize) -> (mov: Move)
        requires
            i < self@.len(),
        ensures
            mov == self@[i as int],
    {
        Move(packed_get(&self.packed, i))
    }

    /// Whether `mov` is one of the moves held.
    pub fn contains(&self, mov: Move) -> (b: bool)
        ensures
            b == self@.contains(mov),
    {
        let n = self.len();
        let mut i: usize = 0;
        while i < n
            invariant
                i <= n,
                n == self@.len(),
                forall|j: int| 0 <= j < i ==> self@[j] != mov,
            decreases n - i,
        {
            if self.get(i).0 == mov.0 {
                return true;
            }
            i += 1;
        }
        false
    }

    /// Removes every move.
    pub fn clear(&mut self)
        ensures
            final(self)@ == Seq::<Move>::empty(),
    {
        packed_clear(&mut self.packed);
        assert(self@ =~= Seq::<Move>::empty());
    }
}

} // verus!
