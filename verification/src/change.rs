//! The minimum amount of change that cannot be created from a set of
//! positive coins, by the classic greedy scan over the sorted coins.

use vstd::prelude::*;
use vstd::seq_lib::to_multiset_insert;

verus! {

/// Ascending order on a sequence of coin values.
pub open spec fn sorted(s: Seq<usize>) -> bool {
    forall|i: int, j: int| 0 <= i < j < s.len() ==> s[i] <= s[j]
}

/// The total value of a sequence of coins.
pub open spec fn coin_sum(s: Seq<usize>) -> int
    decreases s.len(),
{
    if s.len() == 0 {
        0
    } else {
        s[0] + coin_sum(s.drop_first())
    }
}

/// The greedy scan over coins already sorted ascending: `acc` is the
/// largest amount known to be constructible as a contiguous range from
/// zero; a coin larger than `acc + 1` leaves the gap `acc + 1`, any
/// other coin extends the range by its value.
pub open spec fn spec_gap(s: Seq<usize>, acc: int) -> int
    decreases s.len(),
{
    if s.len() == 0 {
        acc + 1
    } else if s[0] - 1 > acc {
        acc + 1
    } else {
        spec_gap(s.drop_first(), acc + s[0])
    }
}

/// The value of one way of picking coins: `b[i]` says whether coin `i`
/// is taken.
pub open spec fn sel_sum(s: Seq<usize>, b: Seq<bool>) -> int
    decreases s.len(),
{
    if s.len() == 0 {
        0
    } else {
        (if b[0] {
            s[0] as int
        } else {
            0
        }) + sel_sum(s.drop_first(), b.drop_first())
    }
}

/// Whether an amount can be assembled from some subset of the coins.
pub open spec fn constructible(s: Seq<usize>, v: int) -> bool {
    exists|b: Seq<bool>| b.len() == s.len() && sel_sum(s, b) == v
}

/// A selection never sums below zero nor above the whole.
proof fn lemma_sel_sum_bounds(s: Seq<usize>, b: Seq<bool>)
    requires
        b.len() == s.len(),
    ensures
        0 <= sel_sum(s, b) <= coin_sum(s),
    decreases s.len(),
{
    if s.len() > 0 {
        lemma_sel_sum_bounds(s.drop_first(), b.drop_first());
    }
}

/// A selection taking nothing sums to zero.
proof fn lemma_sel_sum_false(s: Seq<usize>, b: Seq<bool>)
    requires
        b.len() == s.len(),
        forall|i: int| 0 <= i < b.len() ==> !b[i],
    ensures
        sel_sum(s, b) == 0,
    decreases s.len(),
{
    if s.len() > 0 {
        lemma_sel_sum_false(s.drop_first(), b.drop_first());
    }
}

/// A selection taking at least one coin sums to at least the smallest
/// coin value.
proof fn lemma_sel_sum_some_coin(s: Seq<usize>, b: Seq<bool>, c: int)
    requires
        b.len() == s.len(),
        forall|i: int| 0 <= i < s.len() ==> s[i] >= c,
        exists|i: int| 0 <= i < b.len() && b[i],
    ensures
        sel_sum(s, b) >= c,
    decreases s.len(),
{
    lemma_sel_sum_bounds(s.drop_first(), b.drop_first());
    lemma_coin_sum_nonneg(s.drop_first());
    if !b[0] {
        let i = choose|i: int| 0 <= i < b.len() && b[i];
        assert(b.drop_first()[i - 1]);
        lemma_sel_sum_some_coin(s.drop_first(), b.drop_first(), c);
    }
}

/// A selection splits over a concatenation.
proof fn lemma_sel_sum_concat(x: Seq<usize>, y: Seq<usize>, b: Seq<bool>)
    requires
        b.len() == x.len() + y.len(),
    ensures
        sel_sum(x + y, b) == sel_sum(x, b.subrange(0, x.len() as int)) + sel_sum(
            y,
            b.subrange(x.len() as int, b.len() as int),
        ),
    decreases x.len(),
{
    if x.len() == 0 {
        assert(x + y =~= y);
        assert(b.subrange(0, 0) =~= Seq::<bool>::empty());
        assert(b.subrange(0, b.len() as int) =~= b);
    } else {
        assert((x + y).drop_first() =~= x.drop_first() + y);
        lemma_sel_sum_concat(x.drop_first(), y, b.drop_first());
        assert(b.drop_first().subrange(0, x.len() - 1) =~= b.subrange(0, x.len() as int).drop_first());
        assert(b.drop_first().subrange(x.len() - 1, b.len() - 1) =~= b.subrange(
            x.len() as int,
            b.len() as int,
        ));
    }
}

/// Coins added on the right can simply be left untaken.
proof fn lemma_extend_false(p: Seq<usize>, s: Seq<usize>, v: int)
    requires
        constructible(p, v),
    ensures
        constructible(p + s, v),
{
    let b = choose|b: Seq<bool>| b.len() == p.len() && sel_sum(p, b) == v;
    let b2 = b + Seq::new(s.len(), |i: int| false);
    lemma_sel_sum_concat(p, s, b2);
    assert(b2.subrange(0, p.len() as int) =~= b);
    assert(b2.subrange(p.len() as int, b2.len() as int) =~= Seq::new(s.len(), |i: int| false));
    lemma_sel_sum_false(s, Seq::new(s.len(), |i: int| false));
    assert(b2.len() == (p + s).len() && sel_sum(p + s, b2) == v);
}

/// One coin added on the right can be taken on top of any amount.
proof fn lemma_extend_true(p: Seq<usize>, c: usize, v: int)
    requires
        constructible(p, v),
    ensures
        constructible(p + seq![c], v + c),
{
    let b = choose|b: Seq<bool>| b.len() == p.len() && sel_sum(p, b) == v;
    let b2 = b + seq![true];
    lemma_sel_sum_concat(p, seq![c], b2);
    assert(b2.subrange(0, p.len() as int) =~= b);
    assert(b2.subrange(p.len() as int, b2.len() as int) =~= seq![true]);
    assert(seq![true].drop_first() =~= Seq::<bool>::empty());
    assert(seq![c].drop_first() =~= Seq::<usize>::empty());
    assert(sel_sum(Seq::<usize>::empty(), Seq::<bool>::empty()) == 0);
    assert(sel_sum(seq![c], seq![true]) == c);
    assert(b2.len() == (p + seq![c]).len() && sel_sum(p + seq![c], b2) == v + c);
}

/// The greedy scan is right: starting from a pot `p` whose coins sum
/// to `acc` and cover every amount up to `acc`, the amounts below
/// `spec_gap(s, acc)` are exactly those the pot and the sorted coins
/// `s` can assemble.
proof fn lemma_gap_helper(p: Seq<usize>, s: Seq<usize>, acc: int)
    requires
        sorted(s),
        forall|i: int| 0 <= i < s.len() ==> s[i] >= 1,
        acc >= 0,
        coin_sum(p) == acc,
        forall|v: int| 0 <= v <= acc ==> constructible(p, v),
    ensures
        forall|v: int| 0 <= v < spec_gap(s, acc) ==> constructible(p + s, v),
        !constructible(p + s, spec_gap(s, acc)),
    decreases s.len(),
{
    let g = spec_gap(s, acc);
    if s.len() == 0 {
        assert(g == acc + 1);
        assert(p + s =~= p);
        assert forall|v: int| 0 <= v < g implies constructible(p + s, v) by {
            assert(constructible(p, v));
        }
        if constructible(p, g) {
            let b = choose|b: Seq<bool>| b.len() == p.len() && sel_sum(p, b) == g;
            lemma_sel_sum_bounds(p, b);
        }
    } else {
        let c = s[0];
        if c - 1 > acc {
            assert(g == acc + 1);
            assert forall|v: int| 0 <= v < g implies constructible(p + s, v) by {
                assert(constructible(p, v));
                lemma_extend_false(p, s, v);
            }
            if constructible(p + s, g) {
                let b = choose|b: Seq<bool>| b.len() == (p + s).len() && sel_sum(p + s, b) == g;
                lemma_sel_sum_concat(p, s, b);
                let bp = b.subrange(0, p.len() as int);
                let bs = b.subrange(p.len() as int, b.len() as int);
                lemma_sel_sum_bounds(p, bp);
                lemma_sel_sum_bounds(s, bs);
                if exists|i: int| 0 <= i < bs.len() && bs[i] {
                    assert(forall|i: int| 0 <= i < s.len() ==> s[i] >= c);
                    lemma_sel_sum_some_coin(s, bs, c as int);
                } else {
                    lemma_sel_sum_false(s, bs);
                }
            }
        } else {
            let p2 = p + seq![c];
            let s2 = s.drop_first();
            let acc2 = acc + c;
            assert(g == spec_gap(s2, acc2));
            assert(coin_sum(p2) == acc2) by {
                lemma_coin_sum_concat(p, seq![c]);
                assert(seq![c].drop_first() =~= Seq::<usize>::empty());
                assert(coin_sum(Seq::<usize>::empty()) == 0);
                assert(coin_sum(seq![c]) == c);
            }
            assert forall|v: int| 0 <= v <= acc2 implies constructible(p2, v) by {
                if v <= acc {
                    assert(constructible(p, v));
                    lemma_extend_false(p, seq![c], v);
                } else {
                    assert(0 <= v - c <= acc);
                    assert(constructible(p, v - c));
                    lemma_extend_true(p, c, v - c);
                }
            }
            lemma_gap_helper(p2, s2, acc2);
            assert(p2 + s2 =~= p + s);
        }
    }
}

/// The greedy result is the least amount that no subset of the sorted
/// coins can assemble: every smaller amount is constructible, and the
/// result itself is not.
pub proof fn lemma_gap_least_nonconstructible(s: Seq<usize>)
    requires
        sorted(s),
        forall|i: int| 0 <= i < s.len() ==> s[i] >= 1,
    ensures
        forall|v: int| 0 <= v < spec_gap(s, 0) ==> constructible(s, v),
        !constructible(s, spec_gap(s, 0)),
{
    assert(coin_sum(Seq::<usize>::empty()) == 0);
    assert forall|v: int| 0 <= v <= 0 implies constructible(Seq::<usize>::empty(), v) by {
        assert(sel_sum(Seq::<usize>::empty(), Seq::<bool>::empty()) == 0);
        assert(Seq::<bool>::empty().len() == Seq::<usize>::empty().len());
    }
    lemma_gap_helper(Seq::<usize>::empty(), s, 0);
    assert(Seq::<usize>::empty() + s =~= s);
}

/// Concatenation splits a coin sum.
proof fn lemma_coin_sum_concat(a: Seq<usize>, b: Seq<usize>)
    ensures
        coin_sum(a + b) == coin_sum(a) + coin_sum(b),
    decreases a.len(),
{
    if a.len() == 0 {
        assert(a + b =~= b);
    } else {
        assert((a + b).drop_first() =~= a.drop_first() + b);
        lemma_coin_sum_concat(a.drop_first(), b);
    }
}

/// A coin sum is never negative.
proof fn lemma_coin_sum_nonneg(s: Seq<usize>)
    ensures
        coin_sum(s) >= 0,
    decreases s.len(),
{
    if s.len() > 0 {
        lemma_coin_sum_nonneg(s.drop_first());
    }
}

/// Two sequences with the same multiset draw on the same values, so
/// positivity of the values carries over.
proof fn lemma_same_multiset_ge_one(a: Seq<usize>, b: Seq<usize>)
    requires
        a.to_multiset() == b.to_multiset(),
        forall|i: int| 0 <= i < a.len() ==> a[i] >= 1,
    ensures
        forall|i: int| 0 <= i < b.len() ==> b[i] >= 1,
{
    a.to_multiset_ensures();
    b.to_multiset_ensures();
    assert forall|i: int| 0 <= i < b.len() implies b[i] >= 1 by {
        assert(b.contains(b[i]));
        assert(b.to_multiset().count(b[i]) > 0);
        assert(a.to_multiset().count(b[i]) > 0);
        assert(a.contains(b[i]));
    }
}

/// Inserts a value into a vector sorted ascending, keeping it sorted.
fn sorted_insert(out: &mut Vec<usize>, x: usize)
    requires
        sorted(old(out)@),
    ensures
        sorted(final(out)@),
        final(out)@.to_multiset() == old(out)@.to_multiset().insert(x),
        final(out)@.len() == old(out)@.len() + 1,
{
    let ghost s0 = out@;
    let mut p: usize = 0;
    while p < out.len() && out[p] <= x
        invariant
            p <= out@.len(),
            out@ == s0,
            forall|k: int| 0 <= k < p ==> s0[k] <= x,
        decreases out@.len() - p,
    {
        p += 1;
    }
    out.insert(p, x);
    proof {
        to_multiset_insert(s0, p as int, x);
        s0.insert_ensures(p as int, x);
        let s1 = out@;
        assert forall|i: int, j: int| 0 <= i < j < s1.len() implies s1[i] <= s1[j] by {
            if j < p {
                assert(s1[i] == s0[i] && s1[j] == s0[j]);
            } else if j == p {
                assert(s1[i] == s0[i] && s1[j] == x);
            } else {
                assert(s1[j] == s0[j - 1] && s0[j - 1] >= x);
                if i < p {
                    assert(s1[i] == s0[i]);
                } else if i == p {
                    assert(s1[i] == x);
                } else {
                    assert(s1[i] == s0[i - 1]);
                }
            }
        }
    }
}

/// Sorts the coins ascending by insertion, preserving their multiset.
fn sort_coins(v: &mut Vec<usize>)
    ensures
        sorted(final(v)@),
        final(v)@.to_multiset() == old(v)@.to_multiset(),
        final(v)@.len() == old(v)@.len(),
{
    let ghost orig = v@;
    let mut out: Vec<usize> = Vec::new();
    let mut i: usize = 0;
    proof {
        orig.to_multiset_ensures();
        assert(orig.subrange(0, 0) =~= Seq::<usize>::empty());
        assert(out@.to_multiset() =~= orig.subrange(0, 0).to_multiset());
    }
    while i < v.len()
        invariant
            i <= v@.len(),
            v@ == orig,
            sorted(out@),
            out@.len() == i,
            out@.to_multiset() == orig.subrange(0, i as int).to_multiset(),
        decreases v@.len() - i,
    {
        proof {
            orig.subrange(0, i as int).to_multiset_ensures();
            assert(orig.subrange(0, i + 1) =~= orig.subrange(0, i as int).push(orig[i as int]));
        }
        sorted_insert(&mut out, v[i]);
        i += 1;
    }
    proof {
        assert(orig.subrange(0, orig.len() as int) =~= orig);
    }
    *v = out;
}

/// Sorts the coins in place and returns the minimum amount of change
/// they cannot construct, per the greedy scan `spec_gap`. The coins
/// must be positive and their total must leave room for one more.
pub fn non_constructible_change(coins: &mut Vec<usize>) -> (r: usize)
    requires
        forall|i: int| 0 <= i < old(coins)@.len() ==> old(coins)@[i] >= 1,
        coin_sum(old(coins)@) + 1 <= usize::MAX,
    ensures
        sorted(final(coins)@),
        final(coins)@.to_multiset() == old(coins)@.to_multiset(),
        r == spec_gap(final(coins)@, 0),
        forall|v: int| 0 <= v < r ==> constructible(final(coins)@, v),
        !constructible(final(coins)@, r as int),
{
    sort_coins(coins);
    proof {
        lemma_same_multiset_ge_one(old(coins)@, coins@);
        lemma_coin_sum_same_multiset(old(coins)@, coins@);
        assert(coins@.skip(0) =~= coins@);
    }
    let ghost s = coins@;
    let mut sum: usize = 0;
    let mut i: usize = 0;
    while i < coins.len()
        invariant
            i <= coins@.len(),
            coins@ == s,
            sorted(s),
            s.to_multiset() == old(coins)@.to_multiset(),
            forall|k: int| 0 <= k < s.len() ==> s[k] >= 1,
            coin_sum(s) + 1 <= usize::MAX,
            sum == coin_sum(s.subrange(0, i as int)),
            spec_gap(s, 0) == spec_gap(s.skip(i as int), sum as int),
        decreases coins@.len() - i,
    {
        proof {
            assert(s =~= s.subrange(0, i as int) + s.skip(i as int));
            lemma_coin_sum_concat(s.subrange(0, i as int), s.skip(i as int));
            assert(s.skip(i as int).drop_first() =~= s.skip(i + 1));
            lemma_coin_sum_nonneg(s.skip(i + 1));
            assert(coin_sum(s.skip(i as int)) == s[i as int] + coin_sum(s.skip(i + 1)));
            assert(s.subrange(0, i + 1).drop_last() =~= s.subrange(0, i as int));
            lemma_coin_sum_last(s.subrange(0, i + 1));
        }
        let c = coins[i];
        if c - 1 > sum {
            proof {
                assert(spec_gap(s, 0) == sum + 1);
                lemma_gap_least_nonconstructible(s);
            }
            return sum + 1;
        }
        sum = sum + c;
        i += 1;
    }
    proof {
        assert(s.subrange(0, s.len() as int) =~= s);
        assert(s.skip(s.len() as int) =~= Seq::<usize>::empty());
        assert(spec_gap(s, 0) == sum + 1);
        lemma_gap_least_nonconstructible(s);
    }
    sum + 1
}

/// A coin sum can also be peeled off at the back.
proof fn lemma_coin_sum_last(s: Seq<usize>)
    requires
        s.len() > 0,
    ensures
        coin_sum(s) == coin_sum(s.drop_last()) + s.last(),
{
    assert(s =~= s.drop_last() + seq![s.last()]);
    lemma_coin_sum_concat(s.drop_last(), seq![s.last()]);
    assert(seq![s.last()].drop_first() =~= Seq::<usize>::empty());
    assert(coin_sum(Seq::<usize>::empty()) == 0);
    assert(coin_sum(seq![s.last()]) == s.last());
}

/// Sequences with the same multiset have the same coin sum.
proof fn lemma_coin_sum_same_multiset(a: Seq<usize>, b: Seq<usize>)
    requires
        a.to_multiset() == b.to_multiset(),
    ensures
        coin_sum(a) == coin_sum(b),
    decreases a.len(),
{
    a.to_multiset_ensures();
    b.to_multiset_ensures();
    if a.len() == 0 {
        assert(b.to_multiset().len() == 0);
    } else {
        let x = a[0];
        assert(a.contains(x));
        assert(a.to_multiset().count(x) > 0);
        assert(b.to_multiset().count(x) > 0);
        assert(b.contains(x));
        let j = choose|j: int| 0 <= j < b.len() && b[j] == x;
        assert(a.drop_first() =~= a.remove(0));
        assert(a.remove(0).to_multiset() == a.to_multiset().remove(x));
        assert(b.remove(j).to_multiset() == b.to_multiset().remove(x));
        lemma_coin_sum_same_multiset(a.drop_first(), b.remove(j));
        lemma_coin_sum_remove(b, j);
    }
}

/// Removing one coin lowers the sum by its value.
proof fn lemma_coin_sum_remove(s: Seq<usize>, j: int)
    requires
        0 <= j < s.len(),
    ensures
        coin_sum(s.remove(j)) == coin_sum(s) - s[j],
{
    assert(s =~= s.subrange(0, j) + s.subrange(j, s.len() as int));
    assert(s.remove(j) =~= s.subrange(0, j) + s.subrange(j + 1, s.len() as int));
    lemma_coin_sum_concat(s.subrange(0, j), s.subrange(j, s.len() as int));
    lemma_coin_sum_concat(s.subrange(0, j), s.subrange(j + 1, s.len() as int));
    assert(s.subrange(j, s.len() as int).drop_first() =~= s.subrange(j + 1, s.len() as int));
    assert(coin_sum(s.subrange(j, s.len() as int)) == s[j] + coin_sum(
        s.subrange(j + 1, s.len() as int),
    ));
}

} // verus!
