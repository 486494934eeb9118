//! The winner reported for a round-robin tournament: each result row
//! names the winning team of one competition, and the name reported is
//! the lexicographically greatest among those winners.

use crate::errors::InputError;
use vstd::prelude::*;
use vstd::string::StrSliceExecFns;

verus! {

/// Lexicographic order on character sequences, by code point: the
/// empty sequence comes first, and otherwise the first differing
/// character decides.
pub open spec fn lex_leq(a: Seq<char>, b: Seq<char>) -> bool
    decreases a.len(),
{
    if a.len() == 0 {
        true
    } else if b.len() == 0 {
        false
    } else if a[0] != b[0] {
        (a[0] as int) < (b[0] as int)
    } else {
        lex_leq(a.drop_first(), b.drop_first())
    }
}

/// The lexicographic order is total.
pub proof fn lemma_lex_total(a: Seq<char>, b: Seq<char>)
    ensures
        lex_leq(a, b) || lex_leq(b, a),
    decreases a.len(),
{
    if a.len() == 0 || b.len() == 0 {
    } else if a[0] != b[0] {
        assert(a[0] as int != b[0] as int);
    } else {
        lemma_lex_total(a.drop_first(), b.drop_first());
    }
}

/// The lexicographic order is transitive.
pub proof fn lemma_lex_trans(a: Seq<char>, b: Seq<char>, c: Seq<char>)
    requires
        lex_leq(a, b),
        lex_leq(b, c),
    ensures
        lex_leq(a, c),
    decreases a.len(),
{
    if a.len() > 0 && b.len() > 0 && c.len() > 0 && a[0] == b[0] && b[0] == c[0] {
        lemma_lex_trans(a.drop_first(), b.drop_first(), c.drop_first());
    }
}

/// Decides `lex_leq` on two string slices.
fn str_leq(a: &str, b: &str) -> (r: bool)
    ensures
        r == lex_leq(a@, b@),
{
    let alen = a.unicode_len();
    let blen = b.unicode_len();
    let mut k: usize = 0;
    proof {
        assert(a@.skip(0) =~= a@);
        assert(b@.skip(0) =~= b@);
    }
    while k < alen && k < blen
        invariant
            k <= alen,
            k <= blen,
            alen == a@.len(),
            blen == b@.len(),
            lex_leq(a@, b@) == lex_leq(a@.skip(k as int), b@.skip(k as int)),
        decreases alen - k,
    {
        let ca = a.get_char(k);
        let cb = b.get_char(k);
        proof {
            assert(a@.skip(k as int)[0] == a@[k as int]);
            assert(b@.skip(k as int)[0] == b@[k as int]);
            assert(a@.skip(k as int).drop_first() =~= a@.skip(k as int + 1));
            assert(b@.skip(k as int).drop_first() =~= b@.skip(k as int + 1));
        }
        if ca != cb {
            return ca < cb;
        }
        k += 1;
    }
    proof {
        if alen <= blen {
            assert(a@.skip(k as int).len() == 0);
        } else {
            assert(b@.skip(k as int).len() == 0);
            assert(a@.skip(k as int).len() > 0);
        }
    }
    alen <= blen
}

/// The name of the team that won competition `i`.
pub open spec fn winner_at(competitions: Seq<Vec<&str>>, results: Seq<usize>, i: int) -> Seq<
    char,
> {
    competitions[i]@[results[i] as int]@
}

/// Returns the lexicographically greatest name among the winners named
/// by the result rows, or an error when either input is empty. Each
/// result must index a team of its competition row.
pub fn tournament_winner(competitions: Vec<Vec<&str>>, results: Vec<usize>) -> (r: Result<
    String,
    InputError,
>)
    requires
        results@.len() <= competitions@.len(),
        forall|i: int|
            0 <= i < results@.len() ==> results@[i] < #[trigger] competitions@[i]@.len(),
    ensures
        r is Err <==> (competitions@.len() == 0 || results@.len() == 0),
        r is Err ==> r->Err_0 is Empty,
        r is Ok ==> exists|k: int|
            0 <= k < results@.len() && winner_at(competitions@, results@, k) == r->Ok_0@,
        r is Ok ==> forall|k: int|
            0 <= k < results@.len() ==> lex_leq(
                #[trigger] winner_at(competitions@, results@, k),
                r->Ok_0@,
            ),
{
    if competitions.len() == 0 || results.len() == 0 {
        return Err(InputError::Empty);
    }
    let w0 = results[0];
    let row0 = &competitions[0];
    let mut best: &str = row0[w0];
    let mut i: usize = 1;
    proof {
        assert(winner_at(competitions@, results@, 0) == best@);
        lemma_lex_total(best@, best@);
    }
    while i < results.len()
        invariant
            1 <= i <= results@.len(),
            results@.len() <= competitions@.len(),
            forall|t: int|
                0 <= t < results@.len() ==> results@[t] < #[trigger] competitions@[t]@.len(),
            exists|k: int| 0 <= k < i && winner_at(competitions@, results@, k) == best@,
            forall|k: int|
                0 <= k < i ==> lex_leq(#[trigger] winner_at(competitions@, results@, k), best@),
        decreases results@.len() - i,
    {
        let w = results[i];
        let row = &competitions[i];
        let cand: &str = row[w];
        let ghost prev = best@;
        if str_leq(best, cand) {
            best = cand;
            proof {
                assert(winner_at(competitions@, results@, i as int) == best@);
                assert forall|k: int|
                    0 <= k < i + 1 implies lex_leq(
                    #[trigger] winner_at(competitions@, results@, k),
                    best@,
                ) by {
                    if k < i {
                        lemma_lex_trans(winner_at(competitions@, results@, k), prev, best@);
                    } else {
                        lemma_lex_total(best@, best@);
                    }
                }
            }
        } else {
            proof {
                lemma_lex_total(prev, cand@);
                assert(lex_leq(cand@, prev));
                assert(winner_at(competitions@, results@, i as int) == cand@);
            }
        }
        i += 1;
    }
    Ok(best.to_owned())
}

} // verus!
