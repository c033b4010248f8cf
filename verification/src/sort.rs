//! Stable sorting by an integer key.
//!
//! What sorting gives is written down as sorting by insertion. Three facts
//! are proved of it: the keys ascend, nothing is lost or added, and items
//! with the same key stay in the order they came in. The first and the last
//! of them leave room for one list only, which is how the merge sort that
//! runs is shown to give that list.

use vstd::prelude::*;
use vstd::seq_lib::{to_multiset_build, to_multiset_insert};

verus! {

/// An item that is ordered by a key read from its view.
pub trait SortItem: DeepView {
    /// The key of an item with view `v`.
    spec fn key_of(v: Self::V) -> int;

    /// The key of this item.
    fn key(&self) -> (k: u64)
        ensures
            k == Self::key_of(self.deep_view()),
    ;
}

/// The views of the items of `s`, in order.
pub open spec fn views<T: DeepView>(s: Seq<T>) -> Seq<T::V> {
    Seq::new(s.len(), |i: int| s[i].deep_view())
}

/// Where an item with key `k` goes into `s`: behind the last item whose
/// key is not greater.
pub open spec fn insertion_point<T: SortItem>(s: Seq<T::V>, k: int) -> int
    decreases s.len(),
{
    if s.len() == 0 {
        0
    } else if T::key_of(s.last()) <= k {
        s.len() as int
    } else {
        insertion_point::<T>(s.drop_last(), k)
    }
}

/// `s` with `x` put in at its insertion point.
pub open spec fn insert_sorted<T: SortItem>(s: Seq<T::V>, x: T::V) -> Seq<T::V> {
    s.insert(insertion_point::<T>(s, T::key_of(x)), x)
}

/// `s` sorted by key, items with equal keys in their order in `s`.
pub open spec fn stable_sort<T: SortItem>(s: Seq<T::V>) -> Seq<T::V>
    decreases s.len(),
{
    if s.len() == 0 {
        s
    } else {
        insert_sorted::<T>(stable_sort::<T>(s.drop_last()), s.last())
    }
}

/// The keys of `s` ascend.
pub open spec fn is_sorted<T: SortItem>(s: Seq<T::V>) -> bool {
    forall|i: int, j: int| 0 <= i <= j < s.len() ==> T::key_of(s[i]) <= T::key_of(s[j])
}

/// The test for an item's key being `k`.
pub open spec fn has_key<T: SortItem>(k: int) -> spec_fn(T::V) -> bool {
    |v: T::V| T::key_of(v) == k
}

/// The items of `s` whose key is `k`, in order.
pub open spec fn with_key<T: SortItem>(s: Seq<T::V>, k: int) -> Seq<T::V> {
    s.filter(has_key::<T>(k))
}

/// The insertion point lies in the list and every item from it on has a
/// greater key; in a sorted list no item before it has.
pub proof fn lemma_insertion_point<T: SortItem>(s: Seq<T::V>, k: int)
    ensures
        0 <= insertion_point::<T>(s, k) <= s.len(),
        forall|i: int| insertion_point::<T>(s, k) <= i < s.len() ==> T::key_of(s[i]) > k,
        is_sorted::<T>(s) ==> forall|i: int|
            0 <= i < insertion_point::<T>(s, k) ==> T::key_of(s[i]) <= k,
    decreases s.len(),
{
    if s.len() > 0 && T::key_of(s.last()) > k {
        let rest = s.drop_last();
        lemma_insertion_point::<T>(rest, k);
        assert forall|i: int| insertion_point::<T>(s, k) <= i < s.len() implies T::key_of(s[i])
            > k by {
            if i < rest.len() {
                assert(rest[i] == s[i]);
            }
        }
        if is_sorted::<T>(s) {
            assert forall|i: int, j: int| 0 <= i <= j < rest.len() implies T::key_of(rest[i])
                <= T::key_of(rest[j]) by {
                assert(rest[i] == s[i] && rest[j] == s[j]);
            }
            assert forall|i: int| 0 <= i < insertion_point::<T>(s, k) implies T::key_of(s[i])
                <= k by {
                assert(rest[i] == s[i]);
            }
        }
    }
}

/// A sorted list has as many items as the list it was made from.
pub proof fn lemma_sort_len<T: SortItem>(s: Seq<T::V>)
    ensures
        stable_sort::<T>(s).len() == s.len(),
    decreases s.len(),
{
    if s.len() > 0 {
        let sorted = stable_sort::<T>(s.drop_last());
        lemma_sort_len::<T>(s.drop_last());
        lemma_insertion_point::<T>(sorted, T::key_of(s.last()));
    }
}

/// The keys of a sorted list ascend.
pub proof fn lemma_sort_is_sorted<T: SortItem>(s: Seq<T::V>)
    ensures
        is_sorted::<T>(stable_sort::<T>(s)),
    decreases s.len(),
{
    if s.len() > 0 {
        let sorted = stable_sort::<T>(s.drop_last());
        let x = s.last();
        let p = insertion_point::<T>(sorted, T::key_of(x));
        lemma_sort_is_sorted::<T>(s.drop_last());
        lemma_insertion_point::<T>(sorted, T::key_of(x));
        sorted.insert_ensures(p, x);
        let r = sorted.insert(p, x);
        assert forall|i: int, j: int| 0 <= i <= j < r.len() implies T::key_of(r[i]) <= T::key_of(
            r[j],
        ) by {
            if i < p {
                assert(r[i] == sorted[i]);
            } else if i > p {
                assert(r[i] == sorted[i - 1]);
            }
            if j < p {
                assert(r[j] == sorted[j]);
            } else if j > p {
                assert(r[j] == sorted[j - 1]);
            }
        }
    }
}

/// Sorting keeps every item, as often as it occurred: whatever is read
/// from the items by `f`, the sorted list holds the same values.
pub proof fn lemma_sort_keeps_values<T: SortItem, B>(s: Seq<T::V>, f: spec_fn(T::V) -> B)
    ensures
        stable_sort::<T>(s).map_values(f).to_multiset() == s.map_values(f).to_multiset(),
    decreases s.len(),
{
    if s.len() == 0 {
    } else {
        let rest = s.drop_last();
        let sorted = stable_sort::<T>(rest);
        let x = s.last();
        let p = insertion_point::<T>(sorted, T::key_of(x));
        lemma_sort_keeps_values::<T, B>(rest, f);
        lemma_insertion_point::<T>(sorted, T::key_of(x));
        assert(sorted.insert(p, x).map_values(f) =~= sorted.map_values(f).insert(p, f(x)));
        to_multiset_insert(sorted.map_values(f), p, f(x));
        assert(s.map_values(f) =~= rest.map_values(f).push(f(x)));
        to_multiset_build(rest.map_values(f), f(x));
    }
}

/// What holds of every item of a list holds of every item of the sorted list.
pub proof fn lemma_sort_keeps_property<T: SortItem>(s: Seq<T::V>, p: spec_fn(T::V) -> bool)
    requires
        forall|i: int| 0 <= i < s.len() ==> p(#[trigger] s[i]),
    ensures
        forall|i: int| 0 <= i < stable_sort::<T>(s).len() ==> p(#[trigger] stable_sort::<T>(s)[i]),
    decreases s.len(),
{
    if s.len() > 0 {
        let rest = s.drop_last();
        let sorted = stable_sort::<T>(rest);
        let x = s.last();
        let at = insertion_point::<T>(sorted, T::key_of(x));
        assert forall|i: int| 0 <= i < rest.len() implies p(#[trigger] rest[i]) by {
            assert(rest[i] == s[i]);
        }
        lemma_sort_keeps_property::<T>(rest, p);
        lemma_insertion_point::<T>(sorted, T::key_of(x));
        sorted.insert_ensures(at, x);
        let r = sorted.insert(at, x);
        assert forall|i: int| 0 <= i < r.len() implies p(#[trigger] r[i]) by {
            if i < at {
                assert(r[i] == sorted[i]);
            } else if i > at {
                assert(r[i] == sorted[i - 1]);
            }
        }
    }
}

/// Sorting permutes: the sorted list holds the items of the list it was
/// made from, each as often as there.
pub proof fn lemma_sort_is_permutation<T: SortItem>(s: Seq<T::V>)
    ensures
        stable_sort::<T>(s).to_multiset() == s.to_multiset(),
{
    let id = |v: T::V| v;
    lemma_sort_keeps_values::<T, T::V>(s, id);
    assert(s.map_values(id) =~= s);
    lemma_sort_len::<T>(s);
    assert(stable_sort::<T>(s).map_values(id) =~= stable_sort::<T>(s));
}

/// Sorting is stable: the items with a given key come out in the order in
/// which they went in.
pub proof fn lemma_sort_is_stable<T: SortItem>(s: Seq<T::V>, k: int)
    ensures
        with_key::<T>(stable_sort::<T>(s), k) == with_key::<T>(s, k),
    decreases s.len(),
{
    let pred = has_key::<T>(k);
    if s.len() == 0 {
    } else {
        let rest = s.drop_last();
        let sorted = stable_sort::<T>(rest);
        let x = s.last();
        let p = insertion_point::<T>(sorted, T::key_of(x));
        lemma_sort_is_stable::<T>(rest, k);
        lemma_insertion_point::<T>(sorted, T::key_of(x));
        assert(0 <= p <= sorted.len());
        let head = sorted.subrange(0, p);
        let tail = sorted.subrange(p, sorted.len() as int);
        assert(sorted =~= head + tail);
        assert(sorted.insert(p, x) =~= head.push(x) + tail);
        Seq::filter_distributes_over_add(head, tail, pred);
        Seq::filter_distributes_over_add(head.push(x), tail, pred);
        head.lemma_filter_push(x, pred);
        assert(s =~= rest.push(x));
        rest.lemma_filter_push(x, pred);
        if pred(x) {
            assert forall|i: int| 0 <= i < tail.len() implies !pred(tail[i]) by {
                assert(tail[i] == sorted[p + i]);
            }
            tail.lemma_all_neg_filter_empty(pred);
            assert(tail.filter(pred) =~= Seq::<T::V>::empty());
            assert(head.filter(pred).push(x) + tail.filter(pred) =~= (head.filter(pred)
                + tail.filter(pred)).push(x));
        }
    }
}

/// Where `s` holds an item with key `k`, that item has an index in `s`.
pub proof fn lemma_with_key_witness<T: SortItem>(s: Seq<T::V>, k: int) -> (i: int)
    requires
        with_key::<T>(s, k).len() > 0,
    ensures
        0 <= i < s.len(),
        T::key_of(s[i]) == k,
{
    let found = with_key::<T>(s, k);
    s.lemma_filter_pred(has_key::<T>(k), 0);
    assert(found.contains(found[0]));
    s.lemma_filter_contains_rev(has_key::<T>(k), found[0]);
    choose|i: int| 0 <= i < s.len() && s[i] == found[0]
}

/// The last item of a list that is not empty is the last of those with its key.
proof fn lemma_with_key_of_last<T: SortItem>(s: Seq<T::V>, k: int)
    requires
        s.len() > 0,
    ensures
        T::key_of(s.last()) == k ==> with_key::<T>(s, k) == with_key::<T>(s.drop_last(), k).push(
            s.last(),
        ),
        T::key_of(s.last()) != k ==> with_key::<T>(s, k) == with_key::<T>(s.drop_last(), k),
{
    assert(s =~= s.drop_last().push(s.last()));
    s.drop_last().lemma_filter_push(s.last(), has_key::<T>(k));
}

/// Two sorted lists that hold, for every key, the same items in the same
/// order are one and the same list.
pub proof fn lemma_sorted_lists_agree<T: SortItem>(a: Seq<T::V>, b: Seq<T::V>)
    requires
        is_sorted::<T>(a),
        is_sorted::<T>(b),
        forall|k: int| #[trigger] with_key::<T>(a, k) == with_key::<T>(b, k),
    ensures
        a == b,
    decreases a.len(),
{
    if a.len() == 0 || b.len() == 0 {
        if a.len() > 0 {
            let k = T::key_of(a.last());
            lemma_with_key_of_last::<T>(a, k);
            assert(with_key::<T>(a, k) == with_key::<T>(b, k));
            let i = lemma_with_key_witness::<T>(b, k);
        }
        if b.len() > 0 {
            let k = T::key_of(b.last());
            lemma_with_key_of_last::<T>(b, k);
            assert(with_key::<T>(a, k) == with_key::<T>(b, k));
            let i = lemma_with_key_witness::<T>(a, k);
        }
        assert(a =~= b);
    } else {
        let x = a.last();
        let y = b.last();
        let kx = T::key_of(x);
        let ky = T::key_of(y);
        let a1 = a.drop_last();
        let b1 = b.drop_last();
        lemma_with_key_of_last::<T>(a, kx);
        lemma_with_key_of_last::<T>(b, ky);
        assert(with_key::<T>(a, kx) == with_key::<T>(b, kx));
        assert(with_key::<T>(a, ky) == with_key::<T>(b, ky));
        let i = lemma_with_key_witness::<T>(b, kx);
        let j = lemma_with_key_witness::<T>(a, ky);
        assert(T::key_of(b[i]) <= T::key_of(b[b.len() - 1]));
        assert(T::key_of(a[j]) <= T::key_of(a[a.len() - 1]));
        assert(kx == ky);
        let fa = with_key::<T>(a1, kx);
        let fb = with_key::<T>(b1, kx);
        assert(fa.push(x) == fb.push(y));
        assert(fa.push(x).last() == x);
        assert(fb.push(y).last() == y);
        assert(fa.push(x).drop_last() =~= fa);
        assert(fb.push(y).drop_last() =~= fb);
        assert forall|k: int| #[trigger] with_key::<T>(a1, k) == with_key::<T>(b1, k) by {
            lemma_with_key_of_last::<T>(a, k);
            lemma_with_key_of_last::<T>(b, k);
            assert(with_key::<T>(a, k) == with_key::<T>(b, k));
        }
        assert forall|m: int, n: int| 0 <= m <= n < a1.len() implies T::key_of(a1[m])
            <= T::key_of(a1[n]) by {
            assert(a1[m] == a[m] && a1[n] == a[n]);
        }
        assert forall|m: int, n: int| 0 <= m <= n < b1.len() implies T::key_of(b1[m])
            <= T::key_of(b1[n]) by {
            assert(b1[m] == b[m] && b1[n] == b[n]);
        }
        lemma_sorted_lists_agree::<T>(a1, b1);
        assert(a =~= a1.push(x));
        assert(b =~= b1.push(y));
    }
}

/// The sorted list is the only list that is sorted and holds, for every
/// key, the items of `s` with that key in their order in `s`.
pub proof fn lemma_sort_is_unique<T: SortItem>(s: Seq<T::V>, t: Seq<T::V>)
    requires
        is_sorted::<T>(t),
        forall|k: int| #[trigger] with_key::<T>(t, k) == with_key::<T>(s, k),
    ensures
        t == stable_sort::<T>(s),
{
    lemma_sort_is_sorted::<T>(s);
    assert forall|k: int| #[trigger] with_key::<T>(t, k) == with_key::<T>(
        stable_sort::<T>(s),
        k,
    ) by {
        lemma_sort_is_stable::<T>(s, k);
        assert(with_key::<T>(t, k) == with_key::<T>(s, k));
    }
    lemma_sorted_lists_agree::<T>(t, stable_sort::<T>(s));
}

/// A list of one item or none is sorted as it stands.
pub proof fn lemma_sort_of_short_list<T: SortItem>(s: Seq<T::V>)
    requires
        s.len() <= 1,
    ensures
        stable_sort::<T>(s) == s,
{
    if s.len() == 1 {
        assert(stable_sort::<T>(s.drop_last()) =~= Seq::<T::V>::empty());
        assert(Seq::<T::V>::empty().insert(0, s.last()) =~= s);
    }
}

/// The items with key `k` of a list with `z` put before it.
proof fn lemma_with_key_of_first<T: SortItem>(z: T::V, t: Seq<T::V>, k: int)
    ensures
        T::key_of(z) == k ==> with_key::<T>(seq![z] + t, k) == seq![z] + with_key::<T>(t, k),
        T::key_of(z) != k ==> with_key::<T>(seq![z] + t, k) == with_key::<T>(t, k),
{
    let pred = has_key::<T>(k);
    let none = Seq::<T::V>::empty();
    Seq::filter_distributes_over_add(seq![z], t, pred);
    none.lemma_filter_len(pred);
    none.lemma_filter_push(z, pred);
    assert(none.push(z) =~= seq![z]);
    assert(none.filter(pred) =~= none);
    if T::key_of(z) == k {
        assert(seq![z].filter(pred) =~= seq![z]);
    } else {
        assert(seq![z].filter(pred) + t.filter(pred) =~= t.filter(pred));
    }
}

/// Moving the last item of `b` to the front of `tail` keeps, for every
/// key, the items of `a`, `b` and `tail` in their order.
proof fn lemma_take_right<T: SortItem>(a: Seq<T::V>, b: Seq<T::V>, tail: Seq<T::V>, k: int)
    requires
        b.len() > 0,
    ensures
        with_key::<T>(a, k) + with_key::<T>(b.drop_last(), k) + with_key::<T>(
            seq![b.last()] + tail,
            k,
        ) == with_key::<T>(a, k) + with_key::<T>(b, k) + with_key::<T>(tail, k),
{
    lemma_with_key_of_last::<T>(b, k);
    lemma_with_key_of_first::<T>(b.last(), tail, k);
    let wa = with_key::<T>(a, k);
    let wb = with_key::<T>(b.drop_last(), k);
    let wt = with_key::<T>(tail, k);
    if T::key_of(b.last()) == k {
        assert(wa + wb + (seq![b.last()] + wt) =~= wa + wb.push(b.last()) + wt);
    }
}

/// Moving the last item of `a` to the front of `tail` does the same, when
/// its key is greater than every key in `b`.
proof fn lemma_take_left<T: SortItem>(a: Seq<T::V>, b: Seq<T::V>, tail: Seq<T::V>, k: int)
    requires
        a.len() > 0,
        forall|i: int| 0 <= i < b.len() ==> T::key_of(#[trigger] b[i]) < T::key_of(a.last()),
    ensures
        with_key::<T>(a.drop_last(), k) + with_key::<T>(b, k) + with_key::<T>(
            seq![a.last()] + tail,
            k,
        ) == with_key::<T>(a, k) + with_key::<T>(b, k) + with_key::<T>(tail, k),
{
    lemma_with_key_of_last::<T>(a, k);
    lemma_with_key_of_first::<T>(a.last(), tail, k);
    let wa = with_key::<T>(a.drop_last(), k);
    let wb = with_key::<T>(b, k);
    let wt = with_key::<T>(tail, k);
    if T::key_of(a.last()) == k {
        if wb.len() > 0 {
            let i = lemma_with_key_witness::<T>(b, k);
        }
        assert(wb =~= Seq::<T::V>::empty());
        assert(wa + wb + (seq![a.last()] + wt) =~= wa.push(a.last()) + wb + wt);
    }
}

/// In a sorted list no key is greater than the last, and the list without
/// its last item is sorted.
proof fn lemma_sorted_drop_last<T: SortItem>(s: Seq<T::V>)
    requires
        is_sorted::<T>(s),
        s.len() > 0,
    ensures
        is_sorted::<T>(s.drop_last()),
        forall|i: int| 0 <= i < s.len() ==> T::key_of(#[trigger] s[i]) <= T::key_of(s.last()),
{
    let rest = s.drop_last();
    assert forall|i: int, j: int| 0 <= i <= j < rest.len() implies T::key_of(rest[i])
        <= T::key_of(rest[j]) by {
        assert(rest[i] == s[i] && rest[j] == s[j]);
    }
    assert forall|i: int| 0 <= i < s.len() implies T::key_of(#[trigger] s[i]) <= T::key_of(
        s.last(),
    ) by {
        assert(T::key_of(s[i]) <= T::key_of(s[s.len() - 1]));
    }
}

/// A sorted list stays sorted when an item whose key is not greater than
/// its first is put before it.
proof fn lemma_sorted_with_first<T: SortItem>(z: T::V, t: Seq<T::V>)
    requires
        is_sorted::<T>(t),
        t.len() > 0 ==> T::key_of(z) <= T::key_of(t[0]),
    ensures
        is_sorted::<T>(seq![z] + t),
{
    let r = seq![z] + t;
    assert forall|i: int, j: int| 0 <= i <= j < r.len() implies T::key_of(r[i]) <= T::key_of(
        r[j],
    ) by {
        if i > 0 {
            assert(r[i] == t[i - 1] && r[j] == t[j - 1]);
        } else if j > 0 {
            assert(r[j] == t[j - 1]);
            assert(T::key_of(t[0]) <= T::key_of(t[j - 1]));
        }
    }
}

/// What is put before a list comes last in its reverse.
proof fn lemma_reverse_with_first<A>(z: A, t: Seq<A>)
    ensures
        (seq![z] + t).reverse() == t.reverse().push(z),
{
    let r = seq![z] + t;
    assert forall|i: int| 0 <= i < r.len() implies r.reverse()[i] == t.reverse().push(z)[i] by {
        if i < t.len() {
            assert(r[r.len() - 1 - i] == t[t.len() - 1 - i]);
        }
    }
    assert(r.reverse() =~= t.reverse().push(z));
}

/// Merges two sorted lists. The result is sorted and holds, for every key,
/// the items of `left` with that key and then those of `right`.
fn merge<T: SortItem>(left: Vec<T>, right: Vec<T>) -> (merged: Vec<T>)
    requires
        is_sorted::<T>(views(left@)),
        is_sorted::<T>(views(right@)),
    ensures
        is_sorted::<T>(views(merged@)),
        forall|k: int|
            #[trigger] with_key::<T>(views(merged@), k) == with_key::<T>(views(left@), k)
                + with_key::<T>(views(right@), k),
{
    let ghost a0 = views(left@);
    let ghost b0 = views(right@);
    let mut a = left;
    let mut b = right;
    // The greatest item that is left goes onto the stack, so the stack
    // holds the end of the merged list, `tail`, in reverse.
    let mut stack: Vec<T> = Vec::new();
    let ghost mut tail: Seq<T::V> = Seq::empty();
    proof {
        assert(views(stack@) =~= tail.reverse());
        assert forall|k: int|
            with_key::<T>(a0, k) + with_key::<T>(b0, k) + #[trigger] with_key::<T>(tail, k)
                == with_key::<T>(a0, k) + with_key::<T>(b0, k) by {
            tail.lemma_filter_len(has_key::<T>(k));
            assert(with_key::<T>(a0, k) + with_key::<T>(b0, k) + with_key::<T>(tail, k)
                =~= with_key::<T>(a0, k) + with_key::<T>(b0, k));
        }
    }
    while a.len() > 0 || b.len() > 0
        invariant
            is_sorted::<T>(views(a@)),
            is_sorted::<T>(views(b@)),
            is_sorted::<T>(tail),
            views(stack@) == tail.reverse(),
            forall|i: int|
                0 <= i < a@.len() && tail.len() > 0 ==> T::key_of(#[trigger] views(a@)[i])
                    <= T::key_of(tail[0]),
            forall|i: int|
                0 <= i < b@.len() && tail.len() > 0 ==> T::key_of(#[trigger] views(b@)[i])
                    <= T::key_of(tail[0]),
            forall|k: int|
                with_key::<T>(views(a@), k) + with_key::<T>(views(b@), k) + #[trigger] with_key::<
                    T,
                >(tail, k) == with_key::<T>(a0, k) + with_key::<T>(b0, k),
        decreases a@.len() + b@.len(),
    {
        let ghost va = views(a@);
        let ghost vb = views(b@);
        let ghost old_tail = tail;
        // On equal keys the item of `right` is taken first: it comes last.
        let from_right: bool = if a.len() == 0 {
            true
        } else if b.len() == 0 {
            false
        } else {
            b[b.len() - 1].key() >= a[a.len() - 1].key()
        };
        let item = if from_right {
            b.pop().unwrap()
        } else {
            a.pop().unwrap()
        };
        proof {
            let z = item.deep_view();
            tail = seq![z] + old_tail;
            if va.len() > 0 {
                lemma_sorted_drop_last::<T>(va);
            }
            if vb.len() > 0 {
                lemma_sorted_drop_last::<T>(vb);
            }
            if from_right {
                assert(z == vb.last());
                assert(views(b@) =~= vb.drop_last());
                assert(old_tail.len() > 0 ==> T::key_of(vb[vb.len() - 1]) <= T::key_of(
                    old_tail[0],
                ));
            } else {
                assert(z == va.last());
                assert(views(a@) =~= va.drop_last());
                assert(old_tail.len() > 0 ==> T::key_of(va[va.len() - 1]) <= T::key_of(
                    old_tail[0],
                ));
            }
            lemma_sorted_with_first::<T>(z, old_tail);
            assert forall|i: int| 0 <= i < a@.len() implies T::key_of(#[trigger] views(a@)[i])
                <= T::key_of(tail[0]) by {
                assert(views(a@)[i] == va[i]);
            }
            assert forall|i: int| 0 <= i < b@.len() implies T::key_of(#[trigger] views(b@)[i])
                <= T::key_of(tail[0]) by {
                assert(views(b@)[i] == vb[i]);
            }
            assert forall|k: int|
                with_key::<T>(views(a@), k) + with_key::<T>(views(b@), k) + #[trigger] with_key::<
                    T,
                >(tail, k) == with_key::<T>(a0, k) + with_key::<T>(b0, k) by {
                if from_right {
                    lemma_take_right::<T>(va, vb, old_tail, k);
                } else {
                    lemma_take_left::<T>(va, vb, old_tail, k);
                }
                assert(with_key::<T>(va, k) + with_key::<T>(vb, k) + with_key::<T>(old_tail, k)
                    == with_key::<T>(a0, k) + with_key::<T>(b0, k));
            }
        }
        let ghost below = views(stack@);
        stack.push(item);
        proof {
            lemma_reverse_with_first(item.deep_view(), old_tail);
            assert(views(stack@) =~= below.push(item.deep_view()));
        }
    }
    proof {
        assert forall|k: int| #[trigger] with_key::<T>(tail, k) == with_key::<T>(a0, k)
            + with_key::<T>(b0, k) by {
            views(a@).lemma_filter_len(has_key::<T>(k));
            views(b@).lemma_filter_len(has_key::<T>(k));
            assert(with_key::<T>(views(a@), k) + with_key::<T>(views(b@), k) + with_key::<T>(
                tail,
                k,
            ) =~= with_key::<T>(tail, k));
        }
    }
    let mut merged: Vec<T> = Vec::new();
    while stack.len() > 0
        invariant
            views(merged@) + views(stack@).reverse() == tail,
        decreases stack@.len(),
    {
        let ghost before = views(merged@) + views(stack@).reverse();
        let item = stack.pop().unwrap();
        merged.push(item);
        assert(views(merged@) + views(stack@).reverse() =~= before);
    }
    assert(views(merged@) =~= views(merged@) + views(stack@).reverse());
    merged
}

/// Sorts `items` by key, keeping items with equal keys in their order.
pub fn sort_by_key<T: SortItem>(items: Vec<T>) -> (sorted: Vec<T>)
    ensures
        sorted.deep_view() == stable_sort::<T>(items.deep_view()),
    decreases items@.len(),
{
    let ghost all = views(items@);
    let n: usize = items.len();
    if n <= 1 {
        proof {
            lemma_sort_of_short_list::<T>(all);
        }
        return items;
    }
    let mut left = items;
    let right = left.split_off(n / 2);
    let ghost first = views(left@);
    let ghost second = views(right@);
    let left = sort_by_key(left);
    let right = sort_by_key(right);
    proof {
        lemma_sort_is_sorted::<T>(first);
        lemma_sort_is_sorted::<T>(second);
        assert(views(left@) =~= left.deep_view());
        assert(views(right@) =~= right.deep_view());
    }
    let merged = merge(left, right);
    proof {
        assert(all =~= first + second);
        assert forall|k: int| #[trigger] with_key::<T>(views(merged@), k) == with_key::<T>(
            all,
            k,
        ) by {
            lemma_sort_is_stable::<T>(first, k);
            lemma_sort_is_stable::<T>(second, k);
            Seq::filter_distributes_over_add(first, second, has_key::<T>(k));
        }
        lemma_sort_is_unique::<T>(all, views(merged@));
    }
    merged
}

} // verus!
