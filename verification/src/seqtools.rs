//! Small sequence helpers the store's specifications are built on:
//! first-match lookup by a predicate, counting, and summing, each with
//! the lemmas that loop proofs and the library's laws need.

use vstd::prelude::*;

verus! {

/// Index of the first element of `s` satisfying `p`, or -1 if none does.
pub open spec fn first_match_idx<T>(s: Seq<T>, p: spec_fn(T) -> bool) -> int
    decreases s.len(),
{
    if s.len() <= 0 {
        -1
    } else if p(s.first()) {
        0
    } else {
        let rest = first_match_idx(s.drop_first(), p);
        if rest < 0 {
            -1
        } else {
            rest + 1
        }
    }
}

/// What `first_match_idx` returns: -1 exactly when no element matches;
/// otherwise a valid index of a matching element with no earlier match.
pub proof fn lemma_first_match_idx_props<T>(s: Seq<T>, p: spec_fn(T) -> bool)
    ensures
        first_match_idx(s, p) == -1 <==> (forall|i: int| 0 <= i < s.len() ==> !p(s[i])),
        first_match_idx(s, p) >= 0 ==> {
            let k = first_match_idx(s, p);
            &&& k < s.len()
            &&& p(s[k])
            &&& forall|j: int| 0 <= j < k ==> !p(s[j])
        },
    decreases s.len(),
{
    if s.len() > 0 {
        let d = s.drop_first();
        lemma_first_match_idx_props(d, p);
        assert(forall|i: int| 0 <= i < d.len() ==> #[trigger] d[i] == s[i + 1]);
        assert(s.first() == s[0]);
        if !p(s[0]) {
            let fd = first_match_idx(d, p);
            if fd == -1 {
                assert forall|i: int| 0 <= i < s.len() implies !p(s[i]) by {
                    if i > 0 {
                        assert(d[i - 1] == s[i]);
                    }
                }
            } else {
                assert(s[fd + 1] == d[fd]);
                assert forall|j: int| 0 <= j < fd + 1 implies !p(s[j]) by {
                    if j > 0 {
                        assert(d[j - 1] == s[j]);
                    }
                }
            }
        }
    }
}

/// A matching index with no earlier match is the first-match index.
pub proof fn lemma_first_match_idx_unique<T>(s: Seq<T>, p: spec_fn(T) -> bool, k: int)
    requires
        0 <= k < s.len(),
        p(s[k]),
        forall|j: int| 0 <= j < k ==> !p(s[j]),
    ensures
        first_match_idx(s, p) == k,
{
    lemma_first_match_idx_props(s, p);
    let f = first_match_idx(s, p);
    if f == -1 {
        assert(!p(s[k]));
    } else if f < k {
        assert(!p(s[f]));
    } else if f > k {
        assert(!p(s[k]));
    }
}

/// How the first match moves under a push: an existing match stays, a
/// matching pushed element becomes the match, otherwise there is none.
pub proof fn lemma_first_match_idx_push<T>(s: Seq<T>, p: spec_fn(T) -> bool, x: T)
    ensures
        first_match_idx(s.push(x), p) == if first_match_idx(s, p) >= 0 {
            first_match_idx(s, p)
        } else if p(x) {
            s.len() as int
        } else {
            -1
        },
{
    lemma_first_match_idx_props(s, p);
    let t = s.push(x);
    assert(t[s.len() as int] == x);
    assert(forall|i: int| 0 <= i < s.len() ==> t[i] == s[i]);
    let f = first_match_idx(s, p);
    if f >= 0 {
        lemma_first_match_idx_unique(t, p, f);
    } else if p(x) {
        lemma_first_match_idx_unique(t, p, s.len() as int);
    } else {
        lemma_first_match_idx_props(t, p);
        if first_match_idx(t, p) >= 0 {
            let k = first_match_idx(t, p);
            if k < s.len() {
                assert(!p(s[k]));
            }
        }
    }
}

/// Two same-length sequences on which `p1` and `p2` agree pointwise have
/// the same first-match index.
pub proof fn lemma_first_match_idx_same<T>(
    s1: Seq<T>,
    s2: Seq<T>,
    p1: spec_fn(T) -> bool,
    p2: spec_fn(T) -> bool,
)
    requires
        s1.len() == s2.len(),
        forall|i: int| 0 <= i < s1.len() ==> p1(s1[i]) == p2(s2[i]),
    ensures
        first_match_idx(s1, p1) == first_match_idx(s2, p2),
{
    lemma_first_match_idx_props(s1, p1);
    lemma_first_match_idx_props(s2, p2);
    let f1 = first_match_idx(s1, p1);
    let f2 = first_match_idx(s2, p2);
    if f1 >= 0 && f2 >= 0 && f1 != f2 {
        if f1 < f2 {
            assert(!p2(s2[f1]));
        } else {
            assert(!p1(s1[f2]));
        }
    } else if f1 >= 0 && f2 == -1 {
        assert(!p2(s2[f1]));
    } else if f1 == -1 && f2 >= 0 {
        assert(!p1(s1[f2]));
    }
}

/// Every element of a filtered sequence occurs in the original.
pub proof fn lemma_filter_is_subset<T>(s: Seq<T>, p: spec_fn(T) -> bool)
    ensures
        forall|i: int|
            0 <= i < s.filter(p).len() ==> exists|j: int|
                0 <= j < s.len() && s[j] == #[trigger] s.filter(p)[i],
    decreases s.len(),
{
    reveal(Seq::filter);
    if s.len() > 0 {
        lemma_filter_is_subset(s.drop_last(), p);
        let fl = s.filter(p);
        let dl = s.drop_last().filter(p);
        assert forall|i: int| 0 <= i < fl.len() implies exists|j: int|
            0 <= j < s.len() && s[j] == #[trigger] fl[i] by {
            if i < dl.len() {
                let j = choose|j: int| 0 <= j < s.drop_last().len() && s.drop_last()[j] == dl[i];
                assert(s[j] == fl[i]);
            } else {
                assert(s[s.len() - 1] == fl[i]);
            }
        }
    }
}


/// Index of the last element of `s` satisfying `p`, or -1 if none does.
pub open spec fn last_match_idx<T>(s: Seq<T>, p: spec_fn(T) -> bool) -> int
    decreases s.len(),
{
    if s.len() <= 0 {
        -1
    } else if p(s.last()) {
        s.len() - 1
    } else {
        last_match_idx(s.drop_last(), p)
    }
}

/// What `last_match_idx` returns: -1 exactly when no element matches;
/// otherwise a valid index of a matching element with no later match.
pub proof fn lemma_last_match_idx_props<T>(s: Seq<T>, p: spec_fn(T) -> bool)
    ensures
        last_match_idx(s, p) == -1 || last_match_idx(s, p) >= 0,
        last_match_idx(s, p) == -1 <==> (forall|i: int| 0 <= i < s.len() ==> !p(s[i])),
        last_match_idx(s, p) >= 0 ==> {
            let k = last_match_idx(s, p);
            &&& k < s.len()
            &&& p(s[k])
            &&& forall|j: int| k < j < s.len() ==> !p(s[j])
        },
    decreases s.len(),
{
    if s.len() > 0 {
        let d = s.drop_last();
        lemma_last_match_idx_props(d, p);
        assert(forall|i: int| 0 <= i < s.len() - 1 ==> #[trigger] d[i] == s[i]);
        assert(s.last() == s[s.len() - 1]);
        if !p(s[s.len() - 1]) {
            let fd = last_match_idx(d, p);
            if fd == -1 {
                assert forall|i: int| 0 <= i < s.len() implies !p(s[i]) by {
                    if i < s.len() - 1 {
                        assert(d[i] == s[i]);
                    }
                }
            } else {
                assert(d[fd] == s[fd]);
                assert forall|j: int| fd < j < s.len() implies !p(s[j]) by {
                    if j < s.len() - 1 {
                        assert(d[j] == s[j]);
                    }
                }
            }
        }
    }
}

/// A matching index with no later match is the last-match index.
pub proof fn lemma_last_match_idx_unique<T>(s: Seq<T>, p: spec_fn(T) -> bool, k: int)
    requires
        0 <= k < s.len(),
        p(s[k]),
        forall|j: int| k < j < s.len() ==> !p(s[j]),
    ensures
        last_match_idx(s, p) == k,
{
    lemma_last_match_idx_props(s, p);
    let f = last_match_idx(s, p);
    if f == -1 {
        assert(!p(s[k]));
    } else if f < k {
        assert(!p(s[k]));
    } else if f > k {
        assert(!p(s[f]));
    }
}

/// How many elements of `s` satisfy `p`.
pub open spec fn count_where<T>(s: Seq<T>, p: spec_fn(T) -> bool) -> nat
    decreases s.len(),
{
    if s.len() <= 0 {
        0
    } else {
        (if p(s.first()) {
            1nat
        } else {
            0nat
        }) + count_where(s.drop_first(), p)
    }
}

/// The sum of `f` over the elements of `s`.
pub open spec fn sum_of<T>(s: Seq<T>, f: spec_fn(T) -> nat) -> nat
    decreases s.len(),
{
    if s.len() <= 0 {
        0
    } else {
        f(s.first()) + sum_of(s.drop_first(), f)
    }
}

/// Peeling one element off the front of a suffix, for loop invariants:
/// the count over `s.skip(i)` is the contribution of `s[i]` plus the
/// count over `s.skip(i + 1)`.
pub proof fn lemma_count_where_skip<T>(s: Seq<T>, p: spec_fn(T) -> bool, i: int)
    requires
        0 <= i < s.len(),
    ensures
        count_where(s.skip(i), p) == (if p(s[i]) {
            1nat
        } else {
            0nat
        }) + count_where(s.skip(i + 1), p),
{
    assert(s.skip(i).first() == s[i]);
    assert(s.skip(i).drop_first() =~= s.skip(i + 1));
}

/// The same peeling step for sums.
pub proof fn lemma_sum_of_skip<T>(s: Seq<T>, f: spec_fn(T) -> nat, i: int)
    requires
        0 <= i < s.len(),
    ensures
        sum_of(s.skip(i), f) == f(s[i]) + sum_of(s.skip(i + 1), f),
{
    assert(s.skip(i).first() == s[i]);
    assert(s.skip(i).drop_first() =~= s.skip(i + 1));
}

/// A pointwise bound on `f` bounds the sum by `len * bound`.
pub proof fn lemma_sum_of_bound<T>(s: Seq<T>, f: spec_fn(T) -> nat, bound: nat)
    requires
        forall|i: int| 0 <= i < s.len() ==> #[trigger] f(s[i]) <= bound,
    ensures
        sum_of(s, f) <= s.len() * bound,
    decreases s.len(),
{
    if s.len() > 0 {
        assert(forall|i: int| 0 <= i < s.drop_first().len() ==> s.drop_first()[i] == s[i + 1]);
        lemma_sum_of_bound(s.drop_first(), f, bound);
        assert(f(s[0]) <= bound);
        assert(bound + (s.len() - 1) * bound == s.len() * bound) by (nonlinear_arith);
    }
}

} // verus!
