//! Stable descending sort, as `sort_by` with a reversed comparison performs it.
use vstd::prelude::*;

verus! {

/// How many leading elements of `s` stand before `x` (`ge(e, x)` holds for them).
pub open spec fn leading_ge<T>(s: Seq<T>, x: T, ge: spec_fn(T, T) -> bool) -> nat
    decreases s.len(),
{
    if s.len() > 0 && ge(s[0], x) {
        1 + leading_ge(s.drop_first(), x, ge)
    } else {
        0
    }
}

/// `x` inserted after the leading elements that are not below it.
pub open spec fn insert_desc<T>(s: Seq<T>, x: T, ge: spec_fn(T, T) -> bool) -> Seq<T> {
    s.insert(leading_ge(s, x, ge) as int, x)
}

/// `s` sorted in descending order of `ge`, equal elements keeping their order.
pub open spec fn sort_desc<T>(s: Seq<T>, ge: spec_fn(T, T) -> bool) -> Seq<T>
    decreases s.len(),
{
    if s.len() == 0 {
        s
    } else {
        insert_desc(sort_desc(s.drop_last(), ge), s.last(), ge)
    }
}

pub proof fn lemma_leading_ge_bound<T>(s: Seq<T>, x: T, ge: spec_fn(T, T) -> bool)
    ensures
        leading_ge(s, x, ge) <= s.len(),
        forall|j: int| 0 <= j < leading_ge(s, x, ge) ==> ge(#[trigger] s[j], x),
        leading_ge(s, x, ge) < s.len() ==> !ge(s[leading_ge(s, x, ge) as int], x),
    decreases s.len(),
{
    if s.len() > 0 && ge(s[0], x) {
        lemma_leading_ge_bound(s.drop_first(), x, ge);
        assert forall|j: int| 0 <= j < leading_ge(s, x, ge) implies ge(#[trigger] s[j], x) by {
            if j > 0 {
                assert(s[j] == s.drop_first()[j - 1]);
            }
        }
    }
}

/// The insertion point found by scanning from the front.
pub proof fn lemma_leading_ge_scan<T>(s: Seq<T>, x: T, ge: spec_fn(T, T) -> bool, p: int)
    requires
        0 <= p <= s.len(),
        forall|j: int| 0 <= j < p ==> ge(#[trigger] s[j], x),
        p == s.len() || !ge(s[p], x),
    ensures
        leading_ge(s, x, ge) == p,
    decreases p,
{
    if p > 0 {
        assert forall|j: int| 0 <= j < p - 1 implies ge(#[trigger] s.drop_first()[j], x) by {
            assert(s.drop_first()[j] == s[j + 1]);
        }
        if p - 1 < s.drop_first().len() {
            assert(s.drop_first()[p - 1] == s[p]);
        }
        lemma_leading_ge_scan(s.drop_first(), x, ge, p - 1);
        assert(ge(s[0], x));
    } else {
        if s.len() > 0 {
            assert(!ge(s[0], x));
        }
    }
}

pub proof fn lemma_sort_len<T>(s: Seq<T>, ge: spec_fn(T, T) -> bool)
    ensures
        sort_desc(s, ge).len() == s.len(),
    decreases s.len(),
{
    if s.len() > 0 {
        lemma_sort_len(s.drop_last(), ge);
        lemma_leading_ge_bound(sort_desc(s.drop_last(), ge), s.last(), ge);
    }
}


/// `ge` orders every pair, transitively.
pub open spec fn total_preorder<T>(ge: spec_fn(T, T) -> bool) -> bool {
    &&& forall|a: T, b: T| #[trigger] ge(a, b) || ge(b, a)
    &&& forall|a: T, b: T, c: T| #![trigger ge(a, b), ge(b, c)] ge(a, b) && ge(b, c) ==> ge(a, c)
}

/// Every element of `s` stands before those it is not below.
pub open spec fn sorted_desc<T>(s: Seq<T>, ge: spec_fn(T, T) -> bool) -> bool {
    forall|i: int, j: int| 0 <= i < j < s.len() ==> ge(#[trigger] s[i], #[trigger] s[j])
}

proof fn lemma_insert_sorted<T>(s: Seq<T>, x: T, ge: spec_fn(T, T) -> bool)
    requires
        total_preorder(ge),
        sorted_desc(s, ge),
    ensures
        sorted_desc(insert_desc(s, x, ge), ge),
{
    lemma_leading_ge_bound(s, x, ge);
    let p = leading_ge(s, x, ge) as int;
    let r = insert_desc(s, x, ge);
    assert(r.len() == s.len() + 1);
    assert forall|i: int, j: int| 0 <= i < j < r.len() implies ge(#[trigger] r[i], #[trigger] r[j]) by {
        if j < p {
            assert(r[i] == s[i] && r[j] == s[j]);
        } else if j == p {
            assert(r[i] == s[i] && r[j] == x);
        } else if i < p {
            assert(r[i] == s[i] && r[j] == s[j - 1]);
        } else if i == p {
            assert(r[i] == x && r[j] == s[j - 1]);
            assert(!ge(s[p], x));
            assert(ge(x, s[p]));
            if j - 1 > p {
                assert(ge(s[p], s[j - 1]));
            }
        } else {
            assert(r[i] == s[i - 1] && r[j] == s[j - 1]);
        }
    }
}

/// The sort puts its elements in descending order.
pub proof fn lemma_sort_sorted<T>(s: Seq<T>, ge: spec_fn(T, T) -> bool)
    requires
        total_preorder(ge),
    ensures
        sorted_desc(sort_desc(s, ge), ge),
    decreases s.len(),
{
    if s.len() > 0 {
        lemma_sort_sorted(s.drop_last(), ge);
        lemma_insert_sorted(sort_desc(s.drop_last(), ge), s.last(), ge);
    }
}

/// The sort keeps each element, as often as it occurs.
pub proof fn lemma_sort_permutes<T>(s: Seq<T>, ge: spec_fn(T, T) -> bool)
    ensures
        sort_desc(s, ge).to_multiset() == s.to_multiset(),
    decreases s.len(),
{
    if s.len() > 0 {
        lemma_sort_permutes(s.drop_last(), ge);
        let t = sort_desc(s.drop_last(), ge);
        lemma_leading_ge_bound(t, s.last(), ge);
        vstd::seq_lib::to_multiset_insert(t, leading_ge(t, s.last(), ge) as int, s.last());
        vstd::seq_lib::to_multiset_build(s.drop_last(), s.last());
        assert(s.drop_last().push(s.last()) =~= s);
    }
}


/// `a` and `b` stand level: neither is below the other.
pub open spec fn level<T>(ge: spec_fn(T, T) -> bool, a: T, b: T) -> bool {
    ge(a, b) && ge(b, a)
}

proof fn lemma_insert_stable<T>(t: Seq<T>, e: T, ge: spec_fn(T, T) -> bool, x: T)
    requires
        total_preorder(ge),
        sorted_desc(t, ge),
    ensures
        insert_desc(t, e, ge).filter(|y: T| level(ge, y, x)) == if level(ge, e, x) {
            t.filter(|y: T| level(ge, y, x)).push(e)
        } else {
            t.filter(|y: T| level(ge, y, x))
        },
{
    reveal(Seq::filter);
    lemma_leading_ge_bound(t, e, ge);
    let p = leading_ge(t, e, ge) as int;
    let pred = |y: T| level(ge, y, x);
    let a = t.subrange(0, p);
    let b = t.subrange(p, t.len() as int);
    assert(t =~= a + b);
    assert(insert_desc(t, e, ge) =~= a.push(e) + b);
    Seq::filter_distributes_over_add(a.push(e), b, pred);
    Seq::filter_distributes_over_add(a, b, pred);
    assert(a.push(e).drop_last() =~= a);
    assert(a.push(e).last() == e);
    if level(ge, e, x) {
        assert forall|j: int| 0 <= j < b.len() implies !pred(#[trigger] b[j]) by {
            let k = p + j;
            assert(b[j] == t[k]);
            if pred(t[k]) {
                assert(ge(t[k], x) && ge(x, e));
                assert(ge(t[k], e));
                if k > p {
                    assert(ge(t[p], t[k]));
                }
                assert(ge(t[p], e));
                assert(false);
            }
        }
        b.lemma_all_neg_filter_empty(pred);
        assert(b.filter(pred) =~= Seq::<T>::empty());
        assert(a.push(e).filter(pred) == a.filter(pred).push(e));
        assert(t.filter(pred) == a.filter(pred) + b.filter(pred));
        assert(a.filter(pred) + Seq::<T>::empty() =~= a.filter(pred));
    } else {
        assert(a.push(e).filter(pred) == a.filter(pred));
    }
}

/// The sort keeps elements that stand level in the order they came in.
pub proof fn lemma_sort_stable<T>(s: Seq<T>, ge: spec_fn(T, T) -> bool, x: T)
    requires
        total_preorder(ge),
    ensures
        sort_desc(s, ge).filter(|y: T| level(ge, y, x)) == s.filter(|y: T| level(ge, y, x)),
    decreases s.len(),
{
    reveal(Seq::filter);
    if s.len() > 0 {
        lemma_sort_stable(s.drop_last(), ge, x);
        lemma_sort_sorted(s.drop_last(), ge);
        lemma_insert_stable(sort_desc(s.drop_last(), ge), s.last(), ge, x);
    }
}

} // verus!
