//! Structural core of the leader (manufacturer) solver. The leader's Newton
//! step is unconstrained in this design iteration, so its constraint set and
//! multiplier block are empty; what remains combinatorial is the
//! best-supplier reassignment, whose selection rule is the argmax below.

use vstd::prelude::*;

verus! {

use crate::relation::Relation;

#[derive(Copy, Clone)]
pub struct MRGameConstraints {}

/// Multipliers of the leader solve; empty while the leader system carries no
/// explicit constraint.
#[derive(Clone)]
pub struct MRGameLambdas {}

impl MRGameConstraints {
    /// Reports the multipliers of a leader solve; nothing to report while
    /// the multiplier block is empty.
    pub fn print(&self, _relation: &Relation, _lambdas: &MRGameLambdas) {
    }
}

impl MRGameLambdas {
    pub fn new(_relation: &Relation) -> Self {
        Self {  }
    }
}

/// The first position carrying the largest key. This is the selection rule
/// of the best-supplier reassignment: each material's demand is routed to
/// the supplier whose reassignment coefficient is maximal, ties resolved in
/// favour of the earliest supplier; the caller encodes each coefficient as a
/// key through an order-preserving embedding.
pub fn index_of_maximum(keys: &Vec<u64>) -> (i: usize)
    requires
        keys@.len() > 0,
    ensures
        0 <= i < keys@.len(),
        forall|j: int| 0 <= j < keys@.len() ==> #[trigger] keys@[j] <= keys@[i as int],
        forall|j: int| 0 <= j < i ==> #[trigger] keys@[j] < keys@[i as int],
{
    let mut best: usize = 0;
    let n = keys.len();
    let mut idx: usize = 1;
    while idx < n
        invariant
            n == keys@.len(),
            0 <= best < idx <= n,
            forall|j: int| 0 <= j < idx ==> #[trigger] keys@[j] <= keys@[best as int],
            forall|j: int| 0 <= j < best ==> #[trigger] keys@[j] < keys@[best as int],
        decreases n - idx,
    {
        if keys[best] < keys[idx] {
            best = idx;
        }
        idx += 1;
    }
    best
}

/// The commit step of the best-supplier reassignment for one material: a
/// row over its feasible suppliers that is `zero` everywhere except at the
/// chosen supplier, which carries the whole demand. Routing the demand to a
/// single supplier is what realises the bill-of-materials equality.
pub fn single_assignment<T: Copy>(count: usize, chosen: usize, zero: T, value: T) -> (r: Vec<T>)
    requires
        chosen < count,
    ensures
        r@.len() == count,
        r@[chosen as int] == value,
        forall|j: int| 0 <= j < count && j != chosen ==> r@[j] == zero,
{
    let mut r: Vec<T> = Vec::new();
    for i in 0..count
        invariant
            r@.len() == i,
            chosen < count,
            forall|j: int| 0 <= j < i && j != chosen ==> r@[j] == zero,
            chosen < i ==> r@[chosen as int] == value,
    {
        if i == chosen {
            r.push(value);
        } else {
            r.push(zero);
        }
    }
    r
}

} // verus!
