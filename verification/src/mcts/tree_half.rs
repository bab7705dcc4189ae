//! One half of the tree: a fixed number of slots, filled from the first on.

use vstd::prelude::*;
use crate::mcts::node::Node;
use crate::types::moves::Move;

verus! {

/// A run of slots for nodes. The first `length` slots are in use; the others
/// hold whatever was left in them.
pub struct TreeHalf {
    pub nodes: Vec<Node>,
    pub length: usize,
}

impl TreeHalf {
    /// Whether no more slots are in use than there are.
    pub open spec fn wf(self) -> bool {
        self.length <= self.nodes@.len()
    }

    /// The nodes in use.
    pub open spec fn live(self) -> Seq<Node> {
        self.nodes@.take(self.length as int)
    }

    /// A half with `size` slots, none in use.
    pub fn new(size: usize) -> (h: TreeHalf)
        ensures
            h.nodes@.len() == size,
            h.length == 0,
            h.wf(),
            forall|i: int| 0 <= i < size ==> #[trigger] h.nodes@[i] == Node::fresh(Move(0), 0),
    {
        let mut nodes: Vec<Node> = Vec::new();
        let mut i: usize = 0;
        while i < size
            invariant
                i <= size,
                nodes@.len() == i,
                forall|j: int| 0 <= j < i ==> #[trigger] nodes@[j] == Node::fresh(Move(0), 0),
            decreases size - i,
        {
            nodes.push(Node::new(Move::null(), 0));
            i += 1;
        }
        TreeHalf { nodes, length: 0 }
    }

    /// Takes every slot out of use.
    pub fn clear(&mut self)
        ensures
            final(self).length == 0,
            final(self).nodes@ == old(self).nodes@,
    {
        self.length = 0;
    }

    /// The number of slots in use.
    pub fn len(&self) -> (n: usize)
        ensures
            n == self.length,
    {
        self.length
    }

    /// The number of slots.
    pub fn size(&self) -> (n: usize)
        ensures
            n == self.nodes@.len(),
    {
        self.nodes.len()
    }

    /// Whether no slot is in use.
    pub fn is_empty(&self) -> (b: bool)
        ensures
            b == (self.length == 0),
    {
        self.length == 0
    }

    /// Whether every slot is in use.
    pub fn is_full(&self) -> (b: bool)
        ensures
            b == (self.length >= self.nodes@.len()),
    {
        self.length >= self.nodes.len()
    }

    /// Puts `node` into the next slot and gives its place, or gives nothing
    /// where every slot is in use.
    pub fn push(&mut self, node: Node) -> (r: Option<usize>)
        requires
            old(self).wf(),
        ensures
            final(self).wf(),
            old(self).length < old(self).nodes@.len() ==> r == Some(old(self).length)
                && final(self).length == old(self).length + 1 && final(self).nodes@
                == old(self).nodes@.update(old(self).length as int, node),
            old(self).length >= old(self).nodes@.len() ==> r.is_none() && *final(self) == *old(self),
    {
        let len = self.length;
        if len >= self.nodes.len() {
            return None;
        }
        self.length = len + 1;
        self.nodes[len] = node;
        Some(len)
    }

    /// The node in slot `index`.
    pub fn index(&self, index: usize) -> (n: &Node)
        requires
            index < self.nodes@.len(),
        ensures
            *n == self.nodes@[index as int],
    {
        &self.nodes[index]
    }

    /// The node in slot `index`, to be changed in place.
    pub fn index_mut(&mut self, index: usize) -> (n: &mut Node)
        requires
            index < old(self).nodes@.len(),
        ensures
            *n == old(self).nodes@[index as int],
            final(self).nodes@ == old(self).nodes@.update(index as int, *final(n)),
            final(self).length == old(self).length,
    {
        &mut self.nodes[index]
    }
}

} // verus!
