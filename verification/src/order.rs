//! Stable sorting of a list under a comparison.
//!
//! The sorted form of a list is defined by [`stable_sort`]: elements are
//! placed one after another, each right behind the last element that may
//! precede it. Under a comparison that is total and transitive this is the
//! one rearrangement of the list that is sorted and in which elements that
//! the comparison does not tell apart keep the order in which they came
//! (see `lemma_stable_sort_permutes`, `lemma_stable_sort_sorted` and
//! `lemma_stable_sort_stable`).
use vstd::prelude::*;

verus! {

/// `s` with `x` placed behind the last element `e` for which `le(e, x)`
/// holds, or in front if there is none.
pub open spec fn insert_sorted<E>(s: Seq<E>, x: E, le: spec_fn(E, E) -> bool) -> Seq<E>
    decreases s.len(),
{
    if s.len() == 0 {
        seq![x]
    } else if le(s.last(), x) {
        s.push(x)
    } else {
        insert_sorted(s.drop_last(), x, le).push(s.last())
    }
}

/// The elements of `s` in sorted order, ties kept in the order they came in.
pub open spec fn stable_sort<E>(s: Seq<E>, le: spec_fn(E, E) -> bool) -> Seq<E>
    decreases s.len(),
{
    if s.len() == 0 {
        s
    } else {
        insert_sorted(stable_sort(s.drop_last(), le), s.last(), le)
    }
}

/// Every element is related to every later one.
pub open spec fn sorted<E>(s: Seq<E>, le: spec_fn(E, E) -> bool) -> bool {
    forall|i: int, j: int| 0 <= i < j < s.len() ==> le(#[trigger] s[i], #[trigger] s[j])
}

/// `le` relates any two elements one way or the other, and is transitive.
pub open spec fn total_preorder<E>(le: spec_fn(E, E) -> bool) -> bool {
    &&& forall|a: E, b: E| #[trigger] le(a, b) || #[trigger] le(b, a)
    &&& forall|a: E, b: E, c: E| #[trigger] le(a, b) && #[trigger] le(b, c) ==> le(a, c)
}

/// The elements that `le` does not tell apart from `x`.
pub open spec fn equivalent_to<E>(x: E, le: spec_fn(E, E) -> bool) -> spec_fn(E) -> bool {
    |e: E| le(e, x) && le(x, e)
}

/// A comparison of values of `T` that is decided on their views.
pub trait Comparator<T: DeepView> {
    /// The relation "`a` may stand before `b`".
    spec fn order(&self) -> spec_fn(T::V, T::V) -> bool;

    /// Decides the relation for two values.
    fn le(&self, a: &T, b: &T) -> (r: bool)
        ensures
            r == (self.order())(a.deep_view(), b.deep_view()),
    ;
}

/// Inserting into a list leaves the tail alone if nothing in the tail may
/// precede the new element.
pub proof fn lemma_insert_skips_tail<E>(s: Seq<E>, x: E, le: spec_fn(E, E) -> bool, p: int)
    requires
        0 <= p <= s.len(),
        forall|k: int| p <= k < s.len() ==> !le(#[trigger] s[k], x),
    ensures
        insert_sorted(s, x, le) == insert_sorted(s.take(p), x, le) + s.skip(p),
    decreases s.len() - p,
{
    if p == s.len() {
        assert(s.take(p) =~= s);
        assert(insert_sorted(s, x, le) + s.skip(p) =~= insert_sorted(s, x, le));
    } else {
        lemma_insert_skips_tail(s.drop_last(), x, le, p);
        assert(s.drop_last().take(p) =~= s.take(p));
        assert((insert_sorted(s.take(p), x, le) + s.drop_last().skip(p)).push(s.last())
            =~= insert_sorted(s.take(p), x, le) + s.skip(p));
    }
}

/// Inserting an element adds it to the elements of the list and removes none.
pub proof fn lemma_insert_sorted_multiset<E>(s: Seq<E>, x: E, le: spec_fn(E, E) -> bool)
    ensures
        insert_sorted(s, x, le).to_multiset() == s.to_multiset().insert(x),
        insert_sorted(s, x, le).len() == s.len() + 1,
    decreases s.len(),
{
    broadcast use vstd::seq_lib::to_multiset_build;

    if s.len() == 0 {
        assert(seq![x] =~= s.push(x));
    } else if le(s.last(), x) {
    } else {
        lemma_insert_sorted_multiset(s.drop_last(), x, le);
        assert(s =~= s.drop_last().push(s.last()));
        assert(s.drop_last().to_multiset().insert(x).insert(s.last())
            =~= s.drop_last().to_multiset().insert(s.last()).insert(x));
    }
}

/// Sorting rearranges: the sorted list holds every element as often as the
/// list it was made from.
pub proof fn lemma_stable_sort_permutes<E>(s: Seq<E>, le: spec_fn(E, E) -> bool)
    ensures
        stable_sort(s, le).to_multiset() == s.to_multiset(),
        stable_sort(s, le).len() == s.len(),
    decreases s.len(),
{
    broadcast use vstd::seq_lib::to_multiset_build;

    if s.len() > 0 {
        lemma_stable_sort_permutes(s.drop_last(), le);
        lemma_insert_sorted_multiset(stable_sort(s.drop_last(), le), s.last(), le);
        assert(s =~= s.drop_last().push(s.last()));
    }
}

/// Inserting puts the new element behind the elements it is not told
/// apart from, and leaves the order of all others alone.
pub proof fn lemma_insert_sorted_stable<E>(s: Seq<E>, x: E, le: spec_fn(E, E) -> bool, y: E)
    requires
        total_preorder(le),
    ensures
        insert_sorted(s, x, le).filter(equivalent_to(y, le)) == (if equivalent_to(y, le)(x) {
            s.filter(equivalent_to(y, le)).push(x)
        } else {
            s.filter(equivalent_to(y, le))
        }),
    decreases s.len(),
{
    let same = equivalent_to(y, le);
    reveal(Seq::filter);
    if s.len() == 0 {
        assert(seq![x].drop_last() =~= s);
    } else if le(s.last(), x) {
        s.lemma_filter_push(x, same);
    } else {
        let front = insert_sorted(s.drop_last(), x, le);
        lemma_insert_sorted_stable(s.drop_last(), x, le, y);
        front.lemma_filter_push(s.last(), same);
        s.drop_last().lemma_filter_push(s.last(), same);
        assert(s.drop_last().push(s.last()) =~= s);
        if same(x) && same(s.last()) {
            assert(le(s.last(), y) && le(y, x));
        }
    }
}

/// Sorting is stable: elements that the comparison does not tell apart
/// stand in the sorted list in the order in which they stood before.
pub proof fn lemma_stable_sort_stable<E>(s: Seq<E>, le: spec_fn(E, E) -> bool, y: E)
    requires
        total_preorder(le),
    ensures
        stable_sort(s, le).filter(equivalent_to(y, le)) == s.filter(equivalent_to(y, le)),
    decreases s.len(),
{
    if s.len() > 0 {
        lemma_stable_sort_stable(s.drop_last(), le, y);
        lemma_insert_sorted_stable(stable_sort(s.drop_last(), le), s.last(), le, y);
        s.drop_last().lemma_filter_push(s.last(), equivalent_to(y, le));
        assert(s.drop_last().push(s.last()) =~= s);
    }
}

/// Inserting into a sorted list gives a sorted list.
pub proof fn lemma_insert_sorted_sorted<E>(s: Seq<E>, x: E, le: spec_fn(E, E) -> bool)
    requires
        total_preorder(le),
        sorted(s, le),
    ensures
        sorted(insert_sorted(s, x, le), le),
    decreases s.len(),
{
    let r = insert_sorted(s, x, le);
    if s.len() == 0 {
    } else if le(s.last(), x) {
        assert forall|i: int, j: int| 0 <= i < j < r.len() implies le(
            #[trigger] r[i],
            #[trigger] r[j],
        ) by {
            if j == s.len() && i < s.len() - 1 {
                assert(le(s[i], s.last()));
            }
        }
    } else {
        let front = insert_sorted(s.drop_last(), x, le);
        lemma_insert_sorted_sorted(s.drop_last(), x, le);
        lemma_insert_sorted_multiset(s.drop_last(), x, le);
        assert(le(x, s.last()));
        assert forall|i: int, j: int| 0 <= i < j < r.len() implies le(
            #[trigger] r[i],
            #[trigger] r[j],
        ) by {
            if j == r.len() - 1 {
                broadcast use vstd::seq_lib::to_multiset_contains;

                assert(front.contains(front[i]));
                assert(front.to_multiset().count(front[i]) > 0);
                if front[i] != x {
                    assert(s.drop_last().to_multiset().count(front[i]) > 0);
                    assert(s.drop_last().contains(front[i]));
                    let k = choose|k: int| 0 <= k < s.drop_last().len() && s.drop_last()[k] == front[i];
                    assert(le(s[k], s[s.len() - 1]));
                }
            }
        }
    }
}

/// Under a total preorder the sorted form of a list is sorted.
pub proof fn lemma_stable_sort_sorted<E>(s: Seq<E>, le: spec_fn(E, E) -> bool)
    requires
        total_preorder(le),
    ensures
        sorted(stable_sort(s, le), le),
    decreases s.len(),
{
    if s.len() > 0 {
        lemma_stable_sort_sorted(s.drop_last(), le);
        lemma_insert_sorted_sorted(stable_sort(s.drop_last(), le), s.last(), le);
    }
}

/// A list that is already sorted is its own sorted form.
pub proof fn lemma_stable_sort_of_sorted<E>(s: Seq<E>, le: spec_fn(E, E) -> bool)
    requires
        sorted(s, le),
    ensures
        stable_sort(s, le) == s,
    decreases s.len(),
{
    if s.len() > 0 {
        assert(sorted(s.drop_last(), le));
        lemma_stable_sort_of_sorted(s.drop_last(), le);
        if s.len() > 1 {
            assert(le(s[s.len() - 2], s[s.len() - 1]));
        }
        assert(s.drop_last().push(s.last()) =~= s);
    }
}

/// Sorts `v` in place: stable insertion sort, deciding with `c`.
pub fn sort_in_place<T: DeepView, C: Comparator<T>>(v: &mut Vec<T>, c: &C)
    ensures
        final(v).deep_view() == stable_sort(old(v).deep_view(), c.order()),
{
    let ghost given = v.deep_view();
    let ghost le = c.order();
    let n = v.len();
    let mut i: usize = 0;
    assert(given.take(0) =~= Seq::empty());
    while i < n
        invariant
            le == c.order(),
            n == v.len(),
            n == given.len(),
            i <= n,
            v.deep_view().take(i as int) == stable_sort(given.take(i as int), le),
            v.deep_view().skip(i as int) == given.skip(i as int),
        decreases n - i,
    {
        let ghost before = v.deep_view();
        let ghost prefix = before.take(i as int);
        let x = v.remove(i);
        assert(v.deep_view() =~= before.remove(i as int));
        assert(x.deep_view() == before[i as int]);
        assert(before[i as int] == given.skip(i as int)[0]);
        let ghost xv = x.deep_view();
        let mut p: usize = i;
        proof {
            assert(prefix.take(p as int) =~= prefix);
            assert(insert_sorted(prefix, xv, le) + prefix.skip(p as int) =~= insert_sorted(
                prefix,
                xv,
                le,
            ));
        }
        loop
            invariant
                le == c.order(),
                p <= i < n,
                v.len() == n - 1,
                xv == x.deep_view(),
                prefix == v.deep_view().take(i as int),
                forall|k: int| p <= k < i ==> !le(#[trigger] prefix[k], xv),
            ensures
                p == 0 || le(prefix[p - 1], xv),
            decreases p,
        {
            if p == 0 {
                break;
            }
            assert(v.deep_view()[p - 1] == prefix[p - 1]);
            if c.le(&v[p - 1], &x) {
                break;
            }
            p -= 1;
        }
        proof {
            lemma_insert_skips_tail(prefix, xv, le, p as int);
            if p > 0 {
                assert(v.deep_view()[p - 1] == prefix[p - 1]);
                assert(prefix.take(p as int).last() == prefix[p - 1]);
            }
            assert(seq![xv] =~= prefix.take(0).push(xv));
            assert(insert_sorted(prefix.take(p as int), xv, le) == prefix.take(p as int).push(xv));
        }
        let ghost removed = v.deep_view();
        v.insert(p, x);
        proof {
            assert(v.deep_view() =~= removed.insert(p as int, xv));
            assert(v.deep_view().take(i + 1) =~= prefix.take(p as int).push(xv) + prefix.skip(
                p as int,
            ));
            assert(given.take(i + 1).drop_last() =~= given.take(i as int));
            assert(given.take(i + 1).last() == xv);
            let ghost rest = v.deep_view().skip(i + 1);
            assert forall|k: int| 0 <= k < n - (i + 1) implies #[trigger] rest[k]
                == given.skip(i + 1)[k] by {
                assert(before.skip(i as int)[k + 1] == given.skip(i as int)[k + 1]);
            }
            assert(v.deep_view().skip(i + 1) =~= given.skip(i + 1));
        }
        i += 1;
    }
    assert(v.deep_view().take(n as int) =~= v.deep_view());
    assert(given.take(n as int) =~= given);
}

} // verus!
