//! The search tree: two halves of equal size, one of them written to.
//!
//! A reference to a node is a number whose top bit (of 32) names the half
//! and whose lower 31 bits name the slot.

use vstd::prelude::*;
use crate::mcts::node::Node;
use crate::types::moves::Move;
use crate::mcts::tree_half::TreeHalf;

verus! {

/// The memory of a tree made without a size, in MiB.
pub const DEFAULT_HASH_SIZE: usize = 64;

/// The bits of a reference that name the slot; also the slot that stands
/// for "no children" after a half was cleared.
pub const IND_MASK: usize = 0x7fff_ffff;

/// What the top bit of a reference is worth.
pub const HALF_BIT: usize = 0x8000_0000;

/// The memory that one node takes, in bytes.
pub const NODE_BYTES: usize = 24;

/// The tree.
pub struct SearchTree {
    pub halves: [TreeHalf; 2],
    pub current_half: usize,
    pub half_size: usize,
}

/// The number of slots of each half of a tree of `size_mb` MiB: half the
/// nodes that fit, but no more than a reference can name.
pub open spec fn slots_for(size_mb: usize) -> int {
    let fit = size_mb * 1024 * 1024 / (NODE_BYTES as int) / 2;
    if fit < IND_MASK {
        fit
    } else {
        IND_MASK as int
    }
}

/// The node `n` as it is left when the half `half` is cleared: where its
/// children stood in that half, it has none any more.
pub open spec fn scrubbed(n: Node, half: usize) -> Node {
    if n.first_child / (HALF_BIT as u32) == half {
        Node { first_child: IND_MASK as u32, child_count: 0, ..n }
    } else {
        n
    }
}

/// The number of slots of each half of a tree of `size_mb` MiB.
fn slots(size_mb: usize) -> (n: usize)
    ensures
        n == slots_for(size_mb),
        n <= IND_MASK,
{
    let fit = (size_mb as u128) * 1024 * 1024 / (NODE_BYTES as u128) / 2;
    if fit < IND_MASK as u128 {
        fit as usize
    } else {
        IND_MASK
    }
}

impl SearchTree {
    /// Whether the tree is in order: one of the two halves is the current
    /// one, and both have the same number of slots, no more than a reference
    /// can name.
    pub open spec fn wf(self) -> bool {
        &&& self.current_half < 2
        &&& self.half_size <= IND_MASK
        &&& self.halves[0].wf()
        &&& self.halves[1].wf()
        &&& self.halves[0].nodes@.len() == self.half_size
        &&& self.halves[1].nodes@.len() == self.half_size
    }

    /// The half that is written to.
    pub open spec fn current(self) -> TreeHalf {
        self.halves[self.current_half as int]
    }

    /// The half that is not written to.
    pub open spec fn stale(self) -> TreeHalf {
        self.halves[1 - self.current_half]
    }

    /// Whether `reference` names a node in use in the current half.
    pub open spec fn names_live(self, reference: usize) -> bool {
        reference / HALF_BIT == self.current_half && reference % HALF_BIT < self.current().length
    }

    /// The node that `reference` names.
    pub open spec fn node(self, reference: usize) -> Node {
        self.halves[(reference / HALF_BIT) as int].nodes@[(reference % HALF_BIT) as int]
    }

    /// Whether every node in use in the current half has its children, if it
    /// has any, among the nodes in use in the current half.
    pub open spec fn children_in_half(self) -> bool {
        forall|i: int|
            0 <= i < self.current().length ==> {
                let n = #[trigger] self.current().nodes@[i];
                n.child_count == 0 || (n.first_child / (HALF_BIT as u32) == self.current_half
                    && n.first_child % (HALF_BIT as u32) + n.child_count
                    <= self.current().length)
            }
    }

    /// Whether the tree is as it is made: the first half is the current
    /// one, no node is in use, and every slot holds a node that was never
    /// touched.
    pub open spec fn untouched(self) -> bool {
        &&& self.current_half == 0
        &&& self.halves[0].length == 0
        &&& self.halves[1].length == 0
        &&& forall|h: int, i: int|
            0 <= h < 2 && 0 <= i < self.half_size ==> #[trigger] self.halves[h].nodes@[i]
                == Node::fresh(Move(0), 0)
    }

    /// A tree of `size_mb` MiB with two empty halves.
    fn with_size(size_mb: usize) -> (t: SearchTree)
        ensures
            t.wf(),
            t.half_size == slots_for(size_mb),
            t.untouched(),
            t.children_in_half(),
    {
        let n = slots(size_mb);
        SearchTree { halves: [TreeHalf::new(n), TreeHalf::new(n)], current_half: 0, half_size: n }
    }

    /// A tree of the default size with two empty halves.
    pub fn new() -> (t: SearchTree)
        ensures
            t.wf(),
            t.half_size == slots_for(DEFAULT_HASH_SIZE),
            t.untouched(),
            t.children_in_half(),
    {
        SearchTree::with_size(DEFAULT_HASH_SIZE)
    }

    /// Makes the tree anew with `new_size` MiB and two empty halves.
    pub fn resize(&mut self, new_size: usize)
        ensures
            final(self).wf(),
            final(self).half_size == slots_for(new_size),
            final(self).untouched(),
            final(self).children_in_half(),
    {
        *self = SearchTree::with_size(new_size);
    }

    /// The reference of the root: slot 0 of the current half.
    pub fn root_node(&self) -> (r: usize)
        requires
            self.current_half < 2,
        ensures
            r == self.current_half * HALF_BIT,
            r / HALF_BIT == self.current_half,
            r % HALF_BIT == 0,
    {
        self.current_half * HALF_BIT
    }

    /// Whether no node is in use.
    pub fn is_empty(&self) -> (b: bool)
        ensures
            b == (self.halves[0].length == 0 && self.halves[1].length == 0),
    {
        self.halves[0].is_empty() && self.halves[1].is_empty()
    }

    /// Whether the current half has no slot left.
    pub fn is_full(&self) -> (b: bool)
        requires
            self.current_half < 2,
        ensures
            b == (self.current().length >= self.current().nodes@.len()),
    {
        self.halves[self.current_half].is_full()
    }

    /// The reference that the next node pushed will have.
    pub fn next(&self) -> (r: usize)
        requires
            self.wf(),
        ensures
            r == self.current_half * HALF_BIT + self.current().length,
    {
        self.current_half * HALF_BIT + self.halves[self.current_half].len()
    }

    /// Takes every node out of use and makes the first half the current one.
    pub fn reset(&mut self)
        requires
            old(self).wf(),
        ensures
            final(self).wf(),
            final(self).current_half == 0,
            final(self).half_size == old(self).half_size,
            final(self).halves[0].length == 0,
            final(self).halves[1].length == 0,
            final(self).halves[0].nodes@ == old(self).halves[0].nodes@,
            final(self).halves[1].nodes@ == old(self).halves[1].nodes@,
            final(self).children_in_half(),
    {
        self.halves[0].clear();
        self.halves[1].clear();
        self.current_half = 0;
    }

    /// Puts `node` into the next slot of the current half, or gives nothing
    /// where the half is full.
    pub fn push(&mut self, node: Node) -> (r: Option<()>)
        requires
            old(self).wf(),
        ensures
            final(self).wf(),
            final(self).current_half == old(self).current_half,
            final(self).half_size == old(self).half_size,
            final(self).stale() == old(self).stale(),
            old(self).current().length < old(self).half_size ==> r.is_some() && final(self).current().length == old(self).current().length + 1 && final(self).current().nodes@
                == old(self).current().nodes@.update(old(self).current().length as int, node),
            old(self).current().length >= old(self).half_size ==> r.is_none() && final(self).current() == old(self).current(),
            old(self).children_in_half() && node.child_count == 0 ==> final(self).children_in_half(),
    {
        let half = self.current_half;
        let r = match self.halves[half].push(node) {
            Some(_) => Some(()),
            None => None,
        };
        proof {
            if old(self).children_in_half() && node.child_count == 0 {
                assert forall|j: int| 0 <= j < self.current().length implies {
                    let n = #[trigger] self.current().nodes@[j];
                    n.child_count == 0 || (n.first_child / (HALF_BIT as u32) == self.current_half
                        && n.first_child % (HALF_BIT as u32) + n.child_count
                        <= self.current().length)
                } by {
                    if j < old(self).current().length {
                        assert(self.current().nodes@[j] == old(self).current().nodes@[j]);
                    }
                }
            }
        }
        r
    }

    /// The node that `index` refers to.
    pub fn index(&self, index: usize) -> (n: &Node)
        requires
            self.wf(),
            index / HALF_BIT < 2,
            index % HALF_BIT < self.half_size,
        ensures
            *n == self.node(index),
    {
        let half = index / HALF_BIT;
        let ind = index % HALF_BIT;
        self.halves[half].index(ind)
    }

    /// The node that `index` refers to, to be changed in place.
    pub fn index_mut(&mut self, index: usize) -> (n: &mut Node)
        requires
            old(self).wf(),
            index / HALF_BIT < 2,
            index % HALF_BIT < old(self).half_size,
        ensures
            *n == old(self).node(index),
            final(self).current_half == old(self).current_half,
            final(self).half_size == old(self).half_size,
            final(self).halves[(index / HALF_BIT) as int].length == old(self).halves[(index
                / HALF_BIT) as int].length,
            final(self).halves[(index / HALF_BIT) as int].nodes@ == old(self).halves[(index
                / HALF_BIT) as int].nodes@.update((index % HALF_BIT) as int, *final(n)),
            final(self).halves[1 - index / HALF_BIT] == old(self).halves[1 - index / HALF_BIT],
    {
        let half = index / HALF_BIT;
        let ind = index % HALF_BIT;
        self.halves[half].index_mut(ind)
    }

    /// How full the current half is, in thousandths.
    pub fn hashfull(&self) -> (r: u16)
        requires
            self.wf(),
        ensures
            self.half_size == 0 ==> r == 0,
            self.half_size > 0 ==> r == self.current().length * 1000 / (self.half_size as int),
    {
        let len = self.halves[self.current_half].len();
        let size = self.halves[self.current_half].size();
        if size == 0 {
            0
        } else {
            assert(len * 1000 / (size as int) <= 1000) by (nonlinear_arith)
                requires
                    len <= size,
                    size > 0,
            ;
            ((len as u64) * 1000 / (size as u64)) as u16
        }
    }
}

impl SearchTree {
    /// Brings the children of `parent` into the current half, where they
    /// stand in the other one: they are copied to the next slots in their
    /// order, and the parent then refers to the copies. Gives nothing where
    /// the half is full before all are copied; the half then holds the
    /// copies made, and the parent is as it was.
    pub fn copy_children(&mut self, parent: usize) -> (r: Option<()>)
        requires
            old(self).wf(),
            old(self).names_live(parent),
            old(self).node(parent).first_child / (HALF_BIT as u32) != old(self).current_half
                ==> old(self).node(parent).first_child % (HALF_BIT as u32) + old(self).node(
                parent,
            ).child_count <= old(self).half_size,
        ensures
            final(self).wf(),
            final(self).current_half == old(self).current_half,
            final(self).half_size == old(self).half_size,
            final(self).stale() == old(self).stale(),
            old(self).node(parent).first_child / (HALF_BIT as u32) == old(self).current_half
                ==> r.is_some() && final(self).current() == old(self).current(),
            old(self).node(parent).first_child / (HALF_BIT as u32) != old(self).current_half ==> {
                let n = old(self).current().length as int;
                let k = old(self).node(parent).child_count as int;
                let from = (old(self).node(parent).first_child % (HALF_BIT as u32)) as int;
                let made = if n + k <= old(self).half_size {
                    k
                } else {
                    old(self).half_size - n
                };
                &&& r.is_some() == (n + k <= old(self).half_size)
                &&& final(self).current().length == n + made
                &&& forall|i: int|
                    0 <= i < made ==> #[trigger] final(self).current().nodes@[n + i] == old(self).stale().nodes@[from + i]
                &&& forall|i: int|
                    0 <= i < n && i != parent % HALF_BIT ==> #[trigger] final(self).current().nodes@[i] == old(self).current().nodes@[i]
                &&& final(self).node(parent) == (if r.is_some() {
                    Node {
                        first_child: (old(self).current_half * HALF_BIT + n) as u32,
                        ..old(self).node(parent)
                    }
                } else {
                    old(self).node(parent)
                })
            },
    {
        let cur = self.current_half;
        let parent_ind = parent % HALF_BIT;
        let parent_node = *self.halves[cur].index(parent_ind);
        let child = parent_node.first_child;
        let child_half = (child / (HALF_BIT as u32)) as usize;
        if child_half == cur {
            return Some(());
        }
        let from = (child % (HALF_BIT as u32)) as usize;
        let count = parent_node.child_count as usize;
        let start = self.halves[cur].len();
        let mut i: usize = 0;
        while i < count
            invariant
                i <= count,
                cur < 2,
                child_half == 1 - cur,
                cur == old(self).current_half,
                from + count <= old(self).half_size,
                start == old(self).current().length,
                parent_ind < start,
                parent_ind == parent % HALF_BIT,
                parent / HALF_BIT == cur,
                old(self).wf(),
                old(self).node(parent).first_child / (HALF_BIT as u32) != old(self).current_half,
                count == old(self).node(parent).child_count,
                from == old(self).node(parent).first_child % (HALF_BIT as u32),
                self.wf(),
                self.current_half == cur,
                self.half_size == old(self).half_size,
                self.stale() == old(self).stale(),
                self.current().length == start + i,
                forall|j: int|
                    0 <= j < i ==> #[trigger] self.current().nodes@[start + j] == old(self).stale().nodes@[from + j],
                forall|j: int|
                    0 <= j < start ==> #[trigger] self.current().nodes@[j] == old(self).current().nodes@[j],
            decreases count - i,
        {
            let node = *self.halves[child_half].index(from + i);
            match self.halves[cur].push(node) {
                None => {
                    return None;
                },
                Some(_) => {},
            }
            i += 1;
        }
        let first = (cur * HALF_BIT + start) as u32;
        let parent_slot = self.halves[cur].index_mut(parent_ind);
        parent_slot.first_child = first;
        Some(())
    }

    /// Forgets, in the half that is not written to, every child that stands
    /// in the current half.
    pub fn dereference(&mut self)
        requires
            old(self).wf(),
        ensures
            final(self).wf(),
            final(self).current_half == old(self).current_half,
            final(self).half_size == old(self).half_size,
            final(self).current() == old(self).current(),
            final(self).stale().length == old(self).stale().length,
            forall|i: int|
                0 <= i < old(self).half_size ==> #[trigger] final(self).stale().nodes@[i]
                    == scrubbed(old(self).stale().nodes@[i], old(self).current_half),
    {
        let cur = self.current_half;
        let other = 1 - cur;
        let size = self.half_size;
        let mut i: usize = 0;
        while i < size
            invariant
                i <= size,
                cur < 2,
                other == 1 - cur,
                size == old(self).half_size,
                self.wf(),
                self.current_half == cur,
                self.half_size == size,
                self.current() == old(self).current(),
                self.stale().length == old(self).stale().length,
                forall|j: int|
                    0 <= j < i ==> #[trigger] self.stale().nodes@[j] == scrubbed(
                        old(self).stale().nodes@[j],
                        cur,
                    ),
                forall|j: int|
                    i <= j < size ==> #[trigger] self.stale().nodes@[j] == old(self).stale().nodes@[j],
            decreases size - i,
        {
            let node = *self.halves[other].index(i);
            if (node.first_child / (HALF_BIT as u32)) as usize == cur {
                let slot = self.halves[other].index_mut(i);
                slot.first_child = IND_MASK as u32;
                slot.child_count = 0;
            }
            i += 1;
        }
    }

    /// Makes the other half the current one: it is cleared, the nodes of the
    /// half left behind forget the children they had in it, and the root is
    /// copied to its first slot.
    pub fn switch_halves(&mut self)
        requires
            old(self).wf(),
            old(self).half_size > 0,
        ensures
            final(self).wf(),
            final(self).current_half == 1 - old(self).current_half,
            final(self).half_size == old(self).half_size,
            final(self).current().length == 1,
            final(self).current().nodes@[0] == scrubbed(
                old(self).current().nodes@[0],
                final(self).current_half,
            ),
            final(self).stale().length == old(self).current().length,
            forall|i: int|
                0 <= i < old(self).half_size ==> #[trigger] final(self).stale().nodes@[i]
                    == scrubbed(old(self).current().nodes@[i], final(self).current_half),
    {
        self.current_half = 1 - self.current_half;
        let cur = self.current_half;
        self.halves[cur].clear();
        self.dereference();
        let root = *self.halves[1 - cur].index(0);
        let _ = self.halves[cur].push(root);
    }
}

} // verus!
