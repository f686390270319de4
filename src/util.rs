//! Helpers for assembling point series.
use vstd::prelude::*;

verus! {

/// Pairs the elements of `a` and `b` up to the length of the shorter one.
pub fn zip2<T: Copy>(a: &Vec<T>, b: &Vec<T>) -> (r: Vec<(T, T)>)
    ensures
        r@.len() == if a@.len() < b@.len() {
            a@.len()
        } else {
            b@.len()
        },
        forall|i: int| 0 <= i < r@.len() ==> r@[i] == (a@[i], b@[i]),
{
    let shorter: usize = if a.len() < b.len() {
        a.len()
    } else {
        b.len()
    };
    let mut ret: Vec<(T, T)> = Vec::new();
    let mut i: usize = 0;
    while i < shorter
        invariant
            shorter <= a@.len(),
            shorter <= b@.len(),
            i <= shorter,
            ret@.len() == i,
            forall|k: int| 0 <= k < i ==> ret@[k] == (a@[k], b@[k]),
        decreases shorter - i,
    {
        ret.push((a[i], b[i]));
        i = i + 1;
    }
    ret
}

} // verus!
