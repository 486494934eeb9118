//! Addition with explicit overflow preconditions, shared by a
//! command-line summing tool and a form-based adding service.

use vstd::prelude::*;

verus! {

/// Sum of all entries of a sequence of `u64` values, as a mathematical
/// integer.
pub open spec fn seq_sum(s: Seq<u64>) -> int
    decreases s.len(),
{
    if s.len() == 0 {
        0
    } else {
        seq_sum(s.drop_last()) + s.last()
    }
}

/// Adds two numbers; the caller must rule overflow out.
pub fn sum(a: u64, b: u64) -> (r: u64)
    requires
        a + b <= u64::MAX,
    ensures
        r == a + b,
{
    a + b
}

/// Folds `sum` over a list of numbers, starting from its first entry.
pub fn sum_list(numbers: &Vec<u64>) -> (r: u64)
    requires
        numbers@.len() > 0,
        seq_sum(numbers@) <= u64::MAX,
    ensures
        r == seq_sum(numbers@),
{
    let mut d = numbers[0];
    let mut i: usize = 1;
    proof {
        lemma_seq_sum_prefix_bound(numbers@, 1);
        assert(numbers@.subrange(0, 1).drop_last() =~= Seq::<u64>::empty());
        assert(seq_sum(Seq::<u64>::empty()) == 0);
        assert(seq_sum(numbers@.subrange(0, 1)) == numbers@[0]);
    }
    while i < numbers.len()
        invariant
            1 <= i <= numbers@.len(),
            seq_sum(numbers@) <= u64::MAX,
            d == seq_sum(numbers@.subrange(0, i as int)),
        decreases numbers@.len() - i,
    {
        proof {
            lemma_seq_sum_prefix_bound(numbers@, i + 1);
            lemma_seq_sum_nonneg(numbers@.subrange(0, i as int));
            assert(numbers@.subrange(0, i + 1).drop_last() =~= numbers@.subrange(
                0,
                i as int,
            ));
        }
        d = sum(d, numbers[i]);
        i += 1;
    }
    proof {
        assert(numbers@.subrange(0, numbers@.len() as int) =~= numbers@);
    }
    d
}

/// A sequence sums to at least zero.
proof fn lemma_seq_sum_nonneg(s: Seq<u64>)
    ensures
        seq_sum(s) >= 0,
    decreases s.len(),
{
    if s.len() > 0 {
        lemma_seq_sum_nonneg(s.drop_last());
    }
}

/// Every prefix of a sequence sums to no more than the whole.
proof fn lemma_seq_sum_prefix_bound(s: Seq<u64>, n: int)
    requires
        0 <= n <= s.len(),
    ensures
        seq_sum(s.subrange(0, n)) <= seq_sum(s),
    decreases s.len() - n,
{
    if n == s.len() {
        assert(s.subrange(0, n) =~= s);
    } else {
        lemma_seq_sum_prefix_bound(s, n + 1);
        assert(s.subrange(0, n + 1).drop_last() =~= s.subrange(0, n));
        assert(seq_sum(s.subrange(0, n + 1)) == seq_sum(s.subrange(0, n)) + s[n]);
    }
}

/// The decision behind the form-based adder: both fields must be
/// nonzero, and then the response carries their sum.
pub fn form_sum(n: u64, m: u64) -> (r: Option<u64>)
    requires
        n + m <= u64::MAX,
    ensures
        r is None <==> (n == 0 || m == 0),
        r is Some ==> r->0 == n + m,
{
    if n == 0 || m == 0 {
        return None;
    }
    Some(sum(n, m))
}

} // verus!
