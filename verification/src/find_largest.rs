//! Largest number in a list holding at least one value.

use crate::errors::InputError;
use vstd::prelude::*;

verus! {

/// Returns the largest number of the list, or an error when the list is
/// empty.
pub fn find_largest(list: Vec<isize>) -> (r: Result<isize, InputError>)
    ensures
        r is Err <==> list@.len() == 0,
        r is Err ==> r->Err_0 is Empty,
        r is Ok ==> list@.contains(r->Ok_0) && forall|i: int|
            0 <= i < list@.len() ==> list@[i] <= r->Ok_0,
{
    if list.len() == 0 {
        return Err(InputError::Empty);
    }
    let mut max = list[0];
    let mut i: usize = 1;
    while i < list.len()
        invariant
            1 <= i <= list@.len(),
            list@.contains(max),
            forall|k: int| 0 <= k < i ==> list@[k] <= max,
        decreases list@.len() - i,
    {
        if list[i] > max {
            max = list[i];
        }
        i += 1;
    }
    Ok(max)
}

} // verus!
