//! Finding two distinct entries of an array that add up to a target.

use vstd::prelude::*;

verus! {

/// Whether position `j` closes a pair: some earlier entry adds up with
/// the entry at `j` to the target.
pub open spec fn pair_at(v: Seq<isize>, target: isize, j: int) -> bool {
    exists|i: int| 0 <= i < j && v[i] + v[j] == target
}

/// Returns a pair of entries at distinct positions summing to the
/// target, or an empty vector when no such pair exists. When a pair
/// exists, the first value returned is the entry at the earliest
/// position that closes a pair, and the two values add up to the
/// target.
#[verifier::rlimit(50)]
pub fn two_number_sum(v: &Vec<isize>, target: isize) -> (r: Vec<isize>)
    ensures
        (forall|j: int| 0 <= j < v@.len() ==> !pair_at(v@, target, j)) ==> r@.len() == 0,
        (exists|j: int| 0 <= j < v@.len() && pair_at(v@, target, j)) ==> exists|j: int|
            {
                &&& 0 <= j < v@.len()
                &&& pair_at(v@, target, j)
                &&& forall|k: int| 0 <= k < j ==> !pair_at(v@, target, k)
                &&& r@.len() == 2
                &&& r@[0] == v@[j]
                &&& r@[0] + r@[1] == target
            },
{
    let mut r: Vec<isize> = Vec::new();
    let mut j: usize = 0;
    while j < v.len()
        invariant
            0 <= j <= v@.len(),
            r@.len() == 0,
            forall|k: int| 0 <= k < j ==> !pair_at(v@, target, k),
        decreases v@.len() - j,
    {
        let mut i: usize = 0;
        while i < j
            invariant
                0 <= i <= j < v@.len(),
                r@.len() == 0,
                forall|k: int| 0 <= k < j ==> !pair_at(v@, target, k),
                forall|k: int| 0 <= k < i ==> v@[k] + v@[j as int] != target,
            decreases j - i,
        {
            let hit = (v[i] as i128) + (v[j] as i128) == (target as i128);
            proof {
                assert(hit == (v@[i as int] + v@[j as int] == target));
            }
            if hit {
                r.push(v[j]);
                r.push(v[i]);
                proof {
                    assert(pair_at(v@, target, j as int));
                    assert(r@.len() == 2 && r@[0] == v@[j as int] && r@[0] + r@[1] == target);
                }
                return r;
            }
            i += 1;
        }
        proof {
            assert(!pair_at(v@, target, j as int));
        }
        j += 1;
    }
    r
}

} // verus!
