//! Two things that lists are asked for all over the crate.

use vstd::prelude::*;

verus! {

/// A copy of a list of plain values.
pub fn copied<T: Copy>(list: &Vec<T>) -> (copy: Vec<T>)
    ensures
        copy@ == list@,
{
    let mut copy: Vec<T> = Vec::new();
    let mut i: usize = 0;
    while i < list.len()
        invariant
            i <= list.len(),
            copy@ == list@.take(i as int),
        decreases list.len() - i,
    {
        copy.push(list[i]);
        i += 1;
    }
    copy
}

/// A list turned round. Taking from the back of the result gives the items
/// in their first order, one by one and without a copy.
pub fn reversed<T>(list: Vec<T>) -> (r: Vec<T>)
    ensures
        r@ == list@.reverse(),
{
    let ghost given = list@;
    let mut rest = list;
    let mut r: Vec<T> = Vec::new();
    while rest.len() > 0
        invariant
            rest.len() + r.len() == given.len(),
            rest@ == given.take(rest.len() as int),
            forall|k: int| 0 <= k < r.len() ==> r@[k] == given[given.len() - 1 - k],
        decreases rest.len(),
    {
        let item = rest.pop().unwrap();
        r.push(item);
    }
    r
}

} // verus!
