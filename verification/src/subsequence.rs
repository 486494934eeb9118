//! Whether one array of integers is a subsequence of another.

use vstd::prelude::*;

verus! {

/// Whether `s` is a subsequence of `a`: its values appear in `a` in the
/// same order, not necessarily adjacently. A shared first value must be
/// matched at once; skipping it can never help, since any later match
/// for it could use this occurrence instead.
pub open spec fn is_subsequence(s: Seq<i32>, a: Seq<i32>) -> bool
    decreases a.len(),
{
    if s.len() == 0 {
        true
    } else if a.len() == 0 {
        false
    } else if a[0] == s[0] {
        is_subsequence(s.drop_first(), a.drop_first())
    } else {
        is_subsequence(s, a.drop_first())
    }
}

/// Whether `m` lists, in strictly increasing order, positions of `a`
/// holding the values of `s`, position by position.
pub open spec fn embeds(s: Seq<i32>, a: Seq<i32>, m: Seq<int>) -> bool {
    &&& m.len() == s.len()
    &&& forall|k: int| 0 <= k < m.len() ==> 0 <= #[trigger] m[k] < a.len()
    &&& forall|k: int, l: int| 0 <= k < l < m.len() ==> m[k] < m[l]
    &&& forall|k: int| 0 <= k < m.len() ==> a[#[trigger] m[k]] == s[k]
}

/// A subsequence embeds into its array: matching a shared first value
/// at once loses nothing.
proof fn lemma_subsequence_gives_embedding(s: Seq<i32>, a: Seq<i32>)
    requires
        is_subsequence(s, a),
    ensures
        exists|m: Seq<int>| embeds(s, a, m),
    decreases a.len(),
{
    if s.len() == 0 {
        assert(embeds(s, a, Seq::<int>::empty()));
    } else if a[0] == s[0] {
        lemma_subsequence_gives_embedding(s.drop_first(), a.drop_first());
        let m0 = choose|m: Seq<int>| embeds(s.drop_first(), a.drop_first(), m);
        let m = seq![0int] + m0.map_values(|x: int| x + 1);
        assert(embeds(s, a, m)) by {
            assert(forall|k: int| 1 <= k < m.len() ==> #[trigger] m[k] == m0[k - 1] + 1);
        }
    } else {
        lemma_subsequence_gives_embedding(s, a.drop_first());
        let m0 = choose|m: Seq<int>| embeds(s, a.drop_first(), m);
        let m = m0.map_values(|x: int| x + 1);
        assert(embeds(s, a, m)) by {
            assert(forall|k: int| 0 <= k < m.len() ==> #[trigger] m[k] == m0[k] + 1);
        }
    }
}

/// An embedding certifies the subsequence.
proof fn lemma_embedding_gives_subsequence(s: Seq<i32>, a: Seq<i32>, m: Seq<int>)
    requires
        embeds(s, a, m),
    ensures
        is_subsequence(s, a),
    decreases a.len(),
{
    if s.len() > 0 {
        assert(0 <= m[0] < a.len());
        if a[0] == s[0] {
            let m2 = m.drop_first().map_values(|x: int| x - 1);
            assert(embeds(s.drop_first(), a.drop_first(), m2)) by {
                assert(forall|k: int| 0 <= k < m2.len() ==> #[trigger] m2[k] == m[k + 1] - 1);
            }
            lemma_embedding_gives_subsequence(s.drop_first(), a.drop_first(), m2);
        } else {
            assert(m[0] != 0);
            let m2 = m.map_values(|x: int| x - 1);
            assert(embeds(s, a.drop_first(), m2)) by {
                assert(forall|k: int| 0 <= k < m2.len() ==> #[trigger] m2[k] == m[k] - 1);
                assert(forall|k: int| 0 <= k < m.len() ==> #[trigger] m[k] >= 1);
            }
            lemma_embedding_gives_subsequence(s, a.drop_first(), m2);
        }
    }
}

/// `is_subsequence` holds exactly when the values of `s` appear at
/// strictly increasing positions of `a`.
pub proof fn lemma_is_subsequence_iff_embedding(s: Seq<i32>, a: Seq<i32>)
    ensures
        is_subsequence(s, a) <==> exists|m: Seq<int>| embeds(s, a, m),
{
    if is_subsequence(s, a) {
        lemma_subsequence_gives_embedding(s, a);
    }
    if exists|m: Seq<int>| embeds(s, a, m) {
        let m = choose|m: Seq<int>| embeds(s, a, m);
        lemma_embedding_gives_subsequence(s, a, m);
    }
}

/// A subsequence is never longer than the array it is drawn from.
proof fn lemma_subsequence_len(s: Seq<i32>, a: Seq<i32>)
    requires
        is_subsequence(s, a),
    ensures
        s.len() <= a.len(),
    decreases a.len(),
{
    if s.len() > 0 && a.len() > 0 {
        if a[0] == s[0] {
            lemma_subsequence_len(s.drop_first(), a.drop_first());
        } else {
            lemma_subsequence_len(s, a.drop_first());
        }
    }
}

/// Decides whether `s` is a subsequence of `a`; both must be non-empty.
pub fn validate_subsequence(a: Vec<i32>, s: Vec<i32>) -> (r: bool)
    requires
        a@.len() > 0,
        s@.len() > 0,
    ensures
        r == is_subsequence(s@, a@),
{
    if s.len() > a.len() {
        proof {
            if is_subsequence(s@, a@) {
                lemma_subsequence_len(s@, a@);
            }
        }
        return false;
    }
    let mut p: usize = 0;
    let mut i: usize = 0;
    proof {
        assert(s@.skip(0) =~= s@);
        assert(a@.skip(0) =~= a@);
    }
    while i < a.len() && p < s.len()
        invariant
            0 <= p <= s@.len(),
            0 <= i <= a@.len(),
            is_subsequence(s@, a@) == is_subsequence(
                s@.skip(p as int),
                a@.skip(i as int),
            ),
        decreases a@.len() - i,
    {
        proof {
            assert(s@.skip(p as int)[0] == s@[p as int]);
            assert(a@.skip(i as int)[0] == a@[i as int]);
            assert(s@.skip(p as int).drop_first() =~= s@.skip(p as int + 1));
            assert(a@.skip(i as int).drop_first() =~= a@.skip(i as int + 1));
            if a@[i as int] == s@[p as int] {
                assert(is_subsequence(s@.skip(p as int), a@.skip(i as int)) == is_subsequence(
                    s@.skip(p as int + 1),
                    a@.skip(i as int + 1),
                ));
            } else {
                assert(is_subsequence(s@.skip(p as int), a@.skip(i as int)) == is_subsequence(
                    s@.skip(p as int),
                    a@.skip(i as int + 1),
                ));
            }
        }
        if a[i] == s[p] {
            p += 1;
        }
        i += 1;
    }
    proof {
        if p == s@.len() {
            assert(s@.skip(p as int).len() == 0);
        } else {
            assert(a@.skip(i as int).len() == 0);
            assert(s@.skip(p as int).len() > 0);
        }
    }
    p == s.len()
}

} // verus!
