//! Orderings for the query layer: lexicographic comparison of strings
//! (by character code point, as the store's text collation), optional
//! numbers ordered with absent values first, and a sorting
//! specification — `sort_by_le`, an insertion sort at the
//! specification level — with the lemmas executable sorts are proved
//! against.

use vstd::prelude::*;
use vstd::relations::sorted_by;
use vstd::string::*;

verus! {

/// Lexicographic order on character sequences: the empty sequence comes
/// first, otherwise the first differing character decides.
pub open spec fn lex_le(a: Seq<char>, b: Seq<char>) -> bool
    decreases a.len(),
{
    if a.len() <= 0 {
        true
    } else if b.len() <= 0 {
        false
    } else if a.first() != b.first() {
        a.first() < b.first()
    } else {
        lex_le(a.drop_first(), b.drop_first())
    }
}

/// Any two character sequences compare one way or the other.
pub proof fn lemma_lex_le_total(a: Seq<char>, b: Seq<char>)
    ensures
        lex_le(a, b) || lex_le(b, a),
    decreases a.len(),
{
    if a.len() > 0 && b.len() > 0 && a.first() == b.first() {
        lemma_lex_le_total(a.drop_first(), b.drop_first());
    }
}

/// Lexicographic order is transitive.
pub proof fn lemma_lex_le_trans(a: Seq<char>, b: Seq<char>, c: Seq<char>)
    requires
        lex_le(a, b),
        lex_le(b, c),
    ensures
        lex_le(a, c),
    decreases a.len(),
{
    if a.len() > 0 && b.len() > 0 && c.len() > 0 && a.first() == b.first() && b.first()
        == c.first() {
        lemma_lex_le_trans(a.drop_first(), b.drop_first(), c.drop_first());
    }
}

/// Executable lexicographic comparison.
pub fn str_lex_le(a: &str, b: &str) -> (r: bool)
    ensures
        r == lex_le(a@, b@),
{
    let na = a.unicode_len();
    let nb = b.unicode_len();
    let mut i: usize = 0;
    proof {
        assert(a@.skip(0) =~= a@);
        assert(b@.skip(0) =~= b@);
    }
    while i < na && i < nb
        invariant
            i <= na,
            i <= nb,
            na == a@.len(),
            nb == b@.len(),
            lex_le(a@, b@) == lex_le(a@.skip(i as int), b@.skip(i as int)),
        decreases na - i,
    {
        let ca = a.get_char(i);
        let cb = b.get_char(i);
        proof {
            assert(a@.skip(i as int).first() == a@[i as int]);
            assert(b@.skip(i as int).first() == b@[i as int]);
        }
        if ca < cb {
            return true;
        }
        if cb < ca {
            return false;
        }
        proof {
            assert(a@.skip(i as int).drop_first() =~= a@.skip(i + 1));
            assert(b@.skip(i as int).drop_first() =~= b@.skip(i + 1));
        }
        i += 1;
    }
    proof {
        if i == na {
            assert(a@.skip(i as int).len() == 0);
        } else {
            assert(b@.skip(i as int).len() == 0);
            assert(a@.skip(i as int).len() > 0);
        }
    }
    na <= nb
}

/// Optional numbers ordered with the absent value strictly first.
pub open spec fn opt_i32_lt(a: Option<i32>, b: Option<i32>) -> bool {
    match (a, b) {
        (None, Some(_)) => true,
        (Some(x), Some(y)) => x < y,
        _ => false,
    }
}

/// Non-strict version of `opt_i32_lt`.
pub open spec fn opt_i32_le(a: Option<i32>, b: Option<i32>) -> bool {
    opt_i32_lt(a, b) || a == b
}

/// Executable strict comparison of optional numbers.
pub fn opt_i32_lt_exec(a: Option<i32>, b: Option<i32>) -> (r: bool)
    ensures
        r == opt_i32_lt(a, b),
{
    match (a, b) {
        (None, Some(_)) => true,
        (Some(x), Some(y)) => x < y,
        _ => false,
    }
}

/// Executable non-strict comparison of optional numbers.
pub fn opt_i32_le_exec(a: Option<i32>, b: Option<i32>) -> (r: bool)
    ensures
        r == opt_i32_le(a, b),
{
    match (a, b) {
        (None, _) => true,
        (Some(_), None) => false,
        (Some(x), Some(y)) => x <= y,
    }
}

/// `x` inserted into `s` after every element that is `le` it.
pub open spec fn insert_sorted<T>(x: T, s: Seq<T>, le: spec_fn(T, T) -> bool) -> Seq<T>
    decreases s.len(),
{
    if s.len() <= 0 {
        seq![x]
    } else if le(s.first(), x) {
        seq![s.first()] + insert_sorted(x, s.drop_first(), le)
    } else {
        seq![x] + s
    }
}

/// `s` sorted by repeated insertion (a stable insertion sort).
pub open spec fn sort_by_le<T>(s: Seq<T>, le: spec_fn(T, T) -> bool) -> Seq<T>
    decreases s.len(),
{
    if s.len() <= 0 {
        Seq::empty()
    } else {
        insert_sorted(s.last(), sort_by_le(s.drop_last(), le), le)
    }
}

/// Where the insertion lands: at the first index whose element is not
/// `le` the inserted one.
pub proof fn lemma_insert_sorted_at<T>(s: Seq<T>, le: spec_fn(T, T) -> bool, x: T, j: int)
    requires
        0 <= j <= s.len(),
        forall|k: int| 0 <= k < j ==> le(#[trigger] s[k], x),
        j < s.len() ==> !le(s[j], x),
    ensures
        insert_sorted(x, s, le) == s.insert(j, x),
    decreases s.len(),
{
    if s.len() <= 0 {
        assert(insert_sorted(x, s, le) =~= s.insert(j, x));
    } else if j == 0 {
        assert(!le(s[0], x));
        assert(insert_sorted(x, s, le) =~= s.insert(0, x));
    } else {
        assert(le(s[0], x));
        let d = s.drop_first();
        assert(forall|k: int| 0 <= k < j - 1 ==> #[trigger] d[k] == s[k + 1]);
        lemma_insert_sorted_at(d, le, x, j - 1);
        assert(seq![s.first()] + d.insert(j - 1, x) =~= s.insert(j, x));
    }
}

/// Inserting into a sorted sequence keeps it sorted, for a total,
/// transitive order.
pub proof fn lemma_insert_sorted_sorted<T>(s: Seq<T>, le: spec_fn(T, T) -> bool, x: T)
    requires
        sorted_by(s, le),
        forall|a: T, b: T| #[trigger] le(a, b) || le(b, a),
        forall|a: T, b: T, c: T| #[trigger] le(a, b) && #[trigger] le(b, c) ==> le(a, c),
    ensures
        sorted_by(insert_sorted(x, s, le), le),
    decreases s.len(),
{
    let out = insert_sorted(x, s, le);
    if s.len() <= 0 {
    } else if le(s.first(), x) {
        let d = s.drop_first();
        assert(forall|k: int| 0 <= k < d.len() ==> #[trigger] d[k] == s[k + 1]);
        assert(sorted_by(d, le));
        lemma_insert_sorted_sorted(d, le, x);
        let rest = insert_sorted(x, d, le);
        assert(out =~= seq![s.first()] + rest);
        // The head is `le` everything inserted behind it: the old tail
        // by sortedness, and x directly.
        assert forall|i: int, j: int| 0 <= i < j < out.len() implies le(
            #[trigger] out[i],
            #[trigger] out[j],
        ) by {
            if i == 0 {
                lemma_insert_sorted_mem(d, le, x, j - 1);
                if s.len() > 1 {
                    assert(le(s[0], s[1]));
                }
            } else {
                assert(out[i] == rest[i - 1] && out[j] == rest[j - 1]);
            }
        }
    } else {
        assert(!le(s.first(), x));
        assert(le(x, s.first()));
        assert(out =~= seq![x] + s);
        assert forall|i: int, j: int| 0 <= i < j < out.len() implies le(
            #[trigger] out[i],
            #[trigger] out[j],
        ) by {
            if i == 0 {
                if j > 0 {
                    assert(out[j] == s[j - 1]);
                    if j > 1 {
                        assert(le(s[0], s[j - 1]));
                    }
                }
            } else {
                assert(out[i] == s[i - 1] && out[j] == s[j - 1]);
            }
        }
    }
}

/// Every element of an insertion result is the inserted value or an
/// element of the sequence inserted into.
proof fn lemma_insert_sorted_mem<T>(s: Seq<T>, le: spec_fn(T, T) -> bool, x: T, j: int)
    requires
        0 <= j < insert_sorted(x, s, le).len(),
    ensures
        insert_sorted(x, s, le)[j] == x || s.contains(insert_sorted(x, s, le)[j]),
    decreases s.len(),
{
    let out = insert_sorted(x, s, le);
    if s.len() <= 0 {
    } else if le(s.first(), x) {
        if j == 0 {
            assert(s[0] == out[0]);
        } else {
            let d = s.drop_first();
            lemma_insert_sorted_mem(d, le, x, j - 1);
            assert(out[j] == insert_sorted(x, d, le)[j - 1]);
            if insert_sorted(x, d, le)[j - 1] != x {
                let k = choose|k: int| 0 <= k < d.len() && d[k] == insert_sorted(x, d, le)[j - 1];
                assert(s[k + 1] == d[k]);
            }
        }
    } else {
        if j > 0 {
            assert(out[j] == s[j - 1]);
        }
    }
}

/// An insertion adds exactly the inserted value to the content.
pub proof fn lemma_insert_sorted_multiset<T>(s: Seq<T>, le: spec_fn(T, T) -> bool, x: T)
    ensures
        insert_sorted(x, s, le).to_multiset() == s.to_multiset().insert(x),
    decreases s.len(),
{
    broadcast use vstd::seq_lib::group_to_multiset_ensures;

    let out = insert_sorted(x, s, le);
    if s.len() <= 0 {
        assert(out =~= Seq::<T>::empty().push(x));
        assert(out.to_multiset() =~= s.to_multiset().insert(x));
    } else if le(s.first(), x) {
        let d = s.drop_first();
        lemma_insert_sorted_multiset(d, le, x);
        lemma_cons_to_multiset(s.first(), insert_sorted(x, d, le));
        lemma_cons_to_multiset(s.first(), d);
        assert(seq![s.first()] + d =~= s);
        assert(out.to_multiset() =~= s.to_multiset().insert(x));
    } else {
        lemma_cons_to_multiset(x, s);
    }
}

/// Prepending one element inserts it into the content.
pub proof fn lemma_cons_to_multiset<T>(x: T, s: Seq<T>)
    ensures
        (seq![x] + s).to_multiset() == s.to_multiset().insert(x),
{
    broadcast use vstd::seq_lib::group_to_multiset_ensures;

    let t = seq![x] + s;
    assert(t.remove(0) =~= s);
    assert(t[0] == x);
    assert(t.remove(0).to_multiset() =~= t.to_multiset().remove(x));
    assert(t.contains(x));
    assert(t.to_multiset().count(x) > 0);
    assert(t.to_multiset() =~= s.to_multiset().insert(x)) by {
        assert forall|y: T| true implies t.to_multiset().count(y) == s.to_multiset().insert(
            x,
        ).count(y) by {
            if y == x {
                assert(s.to_multiset().count(x) == t.to_multiset().remove(x).count(x));
            } else {
                assert(s.to_multiset().count(y) == t.to_multiset().remove(x).count(y));
            }
        }
    }
}

/// The sort is a permutation: the content is unchanged.
pub proof fn lemma_sort_by_le_multiset<T>(s: Seq<T>, le: spec_fn(T, T) -> bool)
    ensures
        sort_by_le(s, le).to_multiset() == s.to_multiset(),
    decreases s.len(),
{
    broadcast use vstd::seq_lib::group_to_multiset_ensures;

    if s.len() > 0 {
        let d = s.drop_last();
        lemma_sort_by_le_multiset(d, le);
        lemma_insert_sorted_multiset(sort_by_le(d, le), le, s.last());
        assert(d.push(s.last()) =~= s);
        assert(d.push(s.last()).to_multiset() =~= d.to_multiset().insert(s.last()));
    }
}

/// The sort is sorted, for a total, transitive order.
pub proof fn lemma_sort_by_le_sorted<T>(s: Seq<T>, le: spec_fn(T, T) -> bool)
    requires
        forall|a: T, b: T| #[trigger] le(a, b) || le(b, a),
        forall|a: T, b: T, c: T| #[trigger] le(a, b) && #[trigger] le(b, c) ==> le(a, c),
    ensures
        sorted_by(sort_by_le(s, le), le),
    decreases s.len(),
{
    if s.len() > 0 {
        let d = s.drop_last();
        lemma_sort_by_le_sorted(d, le);
        lemma_insert_sorted_sorted(sort_by_le(d, le), le, s.last());
    }
}

} // verus!
