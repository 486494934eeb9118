//! Whether a phrase reads the same forwards and backwards once its
//! spaces are dropped.

use vstd::prelude::*;
use vstd::string::StrSliceExecFns;

verus! {

/// The characters of a phrase with every space removed.
pub open spec fn strip_spaces(s: Seq<char>) -> Seq<char> {
    s.filter(|c: char| c != ' ')
}

/// Decides whether the phrase, spaces aside, equals its own reversal.
pub fn anagram(str: &str) -> (r: bool)
    ensures
        r == (strip_spaces(str@) == strip_spaces(str@).reverse()),
{
    let n = str.unicode_len();
    let mut v: Vec<char> = Vec::new();
    let mut i: usize = 0;
    proof {
        reveal(Seq::filter);
        assert(str@.subrange(0, 0) =~= Seq::<char>::empty());
        assert(v@ =~= strip_spaces(str@.subrange(0, 0)));
    }
    while i < n
        invariant
            i <= n,
            n == str@.len(),
            v@ == strip_spaces(str@.subrange(0, i as int)),
        decreases n - i,
    {
        let c = str.get_char(i);
        proof {
            reveal(Seq::filter);
            assert(str@.subrange(0, i + 1).drop_last() =~= str@.subrange(0, i as int));
            assert(str@.subrange(0, i + 1).last() == c);
        }
        if c != ' ' {
            v.push(c);
        }
        i += 1;
    }
    proof {
        assert(str@.subrange(0, n as int) =~= str@);
    }
    let ghost stripped = strip_spaces(str@);
    let m = v.len();
    let mut k: usize = 0;
    while k < m / 2
        invariant
            k <= m / 2,
            m == v@.len(),
            v@ == stripped,
            stripped == strip_spaces(str@),
            forall|t: int| 0 <= t < k ==> #[trigger] v@[t] == v@[m - 1 - t],
        decreases m / 2 - k,
    {
        if v[k] != v[m - 1 - k] {
            proof {
                assert(stripped.reverse()[k as int] == stripped[m - 1 - k]);
                assert(stripped != stripped.reverse());
            }
            return false;
        }
        k += 1;
    }
    proof {
        assert forall|t: int| 0 <= t < m implies #[trigger] v@[t] == v@[m - 1 - t] by {
            if t >= m / 2 {
                assert(v@[m - 1 - t] == v@[m - 1 - (m - 1 - t)]);
            }
        }
        assert(stripped =~= stripped.reverse());
    }
    true
}

} // verus!
