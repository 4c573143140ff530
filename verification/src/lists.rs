//! Taking the items of a vector one by one, in order, by value.

use vstd::prelude::*;

verus! {

/// The vector turned around, so that `pop` hands its items out first to last.
pub fn reversed<T>(v: Vec<T>) -> (r: Vec<T>)
    ensures
        r@.len() == v@.len(),
        forall|k: int| 0 <= k < r@.len() ==> #[trigger] r@[k] == v@[v@.len() - 1 - k],
{
    let mut v = v;
    let ghost all = v@;
    let mut r: Vec<T> = Vec::new();
    while v.len() > 0
        invariant
            v@.len() + r@.len() == all.len(),
            v@ == all.take(v@.len() as int),
            forall|k: int| 0 <= k < r@.len() ==> #[trigger] r@[k] == all[all.len() - 1 - k],
        decreases v.len(),
    {
        let item = v.pop().unwrap();
        r.push(item);
        assert(v@ == all.take(v@.len() as int));
    }
    r
}

} // verus!
