//! Squares of an ascending array of integers, again in ascending order.

use vstd::prelude::*;
use vstd::seq_lib::to_multiset_insert;

verus! {

/// Ascending order on a sequence of signed integers.
pub open spec fn sorted_signed(s: Seq<isize>) -> bool {
    forall|i: int, j: int| 0 <= i < j < s.len() ==> s[i] <= s[j]
}

/// The squares of a sequence, position by position.
pub open spec fn squares_of(s: Seq<isize>) -> Seq<isize> {
    s.map_values(|x: isize| ((x as int * x as int) as isize))
}

/// Inserts a value into a vector sorted ascending, keeping it sorted.
fn sorted_insert_signed(out: &mut Vec<isize>, x: isize)
    requires
        sorted_signed(old(out)@),
    ensures
        sorted_signed(final(out)@),
        final(out)@.to_multiset() == old(out)@.to_multiset().insert(x),
        final(out)@.len() == old(out)@.len() + 1,
{
    let ghost s0 = out@;
    let mut p: usize = 0;
    while p < out.len() && out[p] <= x
        invariant
            p <= out@.len(),
            out@ == s0,
            forall|k: int| 0 <= k < p ==> s0[k] <= x,
        decreases out@.len() - p,
    {
        p += 1;
    }
    out.insert(p, x);
    proof {
        to_multiset_insert(s0, p as int, x);
        s0.insert_ensures(p as int, x);
        let s1 = out@;
        assert forall|i: int, j: int| 0 <= i < j < s1.len() implies s1[i] <= s1[j] by {
            if j < p {
                assert(s1[i] == s0[i] && s1[j] == s0[j]);
            } else if j == p {
                assert(s1[i] == s0[i] && s1[j] == x);
            } else {
                assert(s1[j] == s0[j - 1] && s0[j - 1] >= x);
                if i < p {
                    assert(s1[i] == s0[i]);
                } else if i == p {
                    assert(s1[i] == x);
                } else {
                    assert(s1[i] == s0[i - 1]);
                }
            }
        }
    }
}

/// Returns a new array of the same length holding the squares of the
/// input, sorted ascending. The input must be non-empty, sorted
/// ascending, and every square must fit the integer type.
pub fn sorted_squared_array(a: &Vec<isize>) -> (r: Vec<isize>)
    requires
        a@.len() > 0,
        sorted_signed(a@),
        forall|i: int| 0 <= i < a@.len() ==> a@[i] as int * a@[i] as int <= isize::MAX,
    ensures
        r@.len() == a@.len(),
        sorted_signed(r@),
        r@.to_multiset() == squares_of(a@).to_multiset(),
{
    let mut out: Vec<isize> = Vec::new();
    let mut i: usize = 0;
    proof {
        squares_of(a@).to_multiset_ensures();
        assert(out@ =~= squares_of(a@).subrange(0, 0));
        assert(out@.to_multiset() =~= squares_of(a@).subrange(0, 0).to_multiset());
    }
    while i < a.len()
        invariant
            i <= a@.len(),
            forall|k: int| 0 <= k < a@.len() ==> a@[k] as int * a@[k] as int <= isize::MAX,
            sorted_signed(out@),
            out@.len() == i,
            out@.to_multiset() == squares_of(a@).subrange(0, i as int).to_multiset(),
        decreases a@.len() - i,
    {
        let x = a[i];
        proof {
            assert(x as int * x as int >= 0) by (nonlinear_arith);
        }
        let sq = x * x;
        proof {
            let pre = squares_of(a@).subrange(0, i as int);
            pre.to_multiset_ensures();
            assert(squares_of(a@).subrange(0, i + 1) =~= pre.push(sq));
        }
        sorted_insert_signed(&mut out, sq);
        i += 1;
    }
    proof {
        assert(squares_of(a@).subrange(0, a@.len() as int) =~= squares_of(a@));
    }
    out
}

} // verus!
