//! Picking among the children of a node: the one with the largest rating,
//! and the first of them where several share it.

use vstd::prelude::*;

verus! {

/// Whether `i` is the place of the first of the largest numbers of
/// `ratings`.
pub open spec fn is_first_largest(ratings: Seq<u32>, i: int) -> bool {
    &&& 0 <= i < ratings.len()
    &&& forall|j: int| 0 <= j < ratings.len() ==> ratings[j] <= ratings[i]
    &&& forall|j: int| 0 <= j < i ==> ratings[j] < ratings[i]
}

/// The place of the first of the largest numbers of `ratings`, or nothing
/// where there is no number.
pub fn first_largest(ratings: &Vec<u32>) -> (r: Option<usize>)
    ensures
        r.is_some() == (ratings@.len() > 0),
        r.is_some() ==> is_first_largest(ratings@, r.unwrap() as int),
{
    if ratings.len() == 0 {
        return None;
    }
    let mut best: usize = 0;
    let mut i: usize = 1;
    while i < ratings.len()
        invariant
            1 <= i <= ratings@.len(),
            best < i,
            forall|j: int| 0 <= j < i ==> ratings@[j] <= ratings@[best as int],
            forall|j: int| 0 <= j < best ==> ratings@[j] < ratings@[best as int],
        decreases ratings@.len() - i,
    {
        if ratings[i] > ratings[best] {
            best = i;
        }
        i += 1;
    }
    Some(best)
}

/// There is one first of the largest numbers: the choice among equal
/// ratings is settled by their order.
pub proof fn law_first_largest_unique(ratings: Seq<u32>, i: int, j: int)
    requires
        is_first_largest(ratings, i),
        is_first_largest(ratings, j),
    ensures
        i == j,
{
    if i < j {
        assert(ratings[i] < ratings[j]);
        assert(ratings[j] <= ratings[i]);
    } else if j < i {
        assert(ratings[j] < ratings[i]);
        assert(ratings[i] <= ratings[j]);
    }
}

} // verus!
