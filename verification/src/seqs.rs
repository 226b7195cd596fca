//! Facts about searching and filtering sequences.
use vstd::prelude::*;

verus! {

/// Position of the first element of `s` that satisfies `p`.
pub open spec fn first_match<A>(s: Seq<A>, p: spec_fn(A) -> bool) -> Option<int>
    decreases s.len(),
{
    if s.len() == 0 {
        None
    } else {
        match first_match(s.drop_last(), p) {
            Some(k) => Some(k),
            None => if p(s.last()) {
                Some(s.len() - 1)
            } else {
                None
            },
        }
    }
}

/// Extending a prefix with no match by one element.
pub proof fn lemma_first_match_step<A>(s: Seq<A>, p: spec_fn(A) -> bool, i: int)
    requires
        0 <= i < s.len(),
        first_match(s.take(i), p) is None,
    ensures
        first_match(s.take(i + 1), p) == (if p(s[i]) {
            Some(i)
        } else {
            None::<int>
        }),
{
    assert(s.take(i + 1).drop_last() =~= s.take(i));
}

/// A match found in a prefix is the first match of the whole sequence.
pub proof fn lemma_first_match_prefix<A>(s: Seq<A>, p: spec_fn(A) -> bool, j: int)
    requires
        0 <= j <= s.len(),
        first_match(s.take(j), p) is Some,
    ensures
        first_match(s, p) == first_match(s.take(j), p),
    decreases s.len() - j,
{
    if j == s.len() {
        assert(s.take(j) =~= s);
    } else {
        assert(s.take(j + 1).drop_last() =~= s.take(j));
        lemma_first_match_prefix(s, p, j + 1);
    }
}

/// The first match lies in the sequence, satisfies `p`, and nothing before it does.
pub proof fn lemma_first_match_props<A>(s: Seq<A>, p: spec_fn(A) -> bool)
    ensures
        match first_match(s, p) {
            Some(k) => 0 <= k < s.len() && p(s[k]) && forall|j: int| 0 <= j < k ==> !p(#[trigger] s[j]),
            None => forall|j: int| 0 <= j < s.len() ==> !p(#[trigger] s[j]),
        },
    decreases s.len(),
{
    if s.len() > 0 {
        lemma_first_match_props(s.drop_last(), p);
        assert(forall|j: int| 0 <= j < s.len() - 1 ==> s.drop_last()[j] == s[j]);
    }
}

/// Filtering a sequence extended by one element.
pub proof fn lemma_filter_push<A>(s: Seq<A>, p: spec_fn(A) -> bool, x: A)
    ensures
        s.push(x).filter(p) == (if p(x) {
            s.filter(p).push(x)
        } else {
            s.filter(p)
        }),
{
    reveal(Seq::filter);
    assert(s.push(x).drop_last() =~= s);
}

/// Filtering a prefix extended by the next element.
pub proof fn lemma_filter_take_step<A>(s: Seq<A>, p: spec_fn(A) -> bool, i: int)
    requires
        0 <= i < s.len(),
    ensures
        s.take(i + 1).filter(p) == (if p(s[i]) {
            s.take(i).filter(p).push(s[i])
        } else {
            s.take(i).filter(p)
        }),
{
    assert(s.take(i + 1) =~= s.take(i).push(s[i]));
    lemma_filter_push(s.take(i), p, s[i]);
}

} // verus!

verus! {

/// The first position satisfying `p` is the first match.
pub proof fn lemma_first_match_is(s: Seq<char>, p: spec_fn(char) -> bool, k: int)
    requires
        0 <= k < s.len(),
        p(s[k]),
        forall|j: int| 0 <= j < k ==> !p(#[trigger] s[j]),
    ensures
        first_match(s, p) == Some(k),
{
    lemma_first_match_props(s, p);
    match first_match(s, p) {
        Some(m) => {
            if m < k {
                assert(!p(s[m]));
            } else if m > k {
                assert(!p(s[k]));
            }
        },
        None => {
            assert(!p(s[k]));
        },
    }
}

/// With no position satisfying `p` there is no first match.
pub proof fn lemma_first_match_none(s: Seq<char>, p: spec_fn(char) -> bool)
    requires
        forall|j: int| 0 <= j < s.len() ==> !p(#[trigger] s[j]),
    ensures
        first_match(s, p) is None,
{
    lemma_first_match_props(s, p);
    match first_match(s, p) {
        Some(m) => {
            assert(!p(s[m]));
        },
        None => {},
    }
}

} // verus!
