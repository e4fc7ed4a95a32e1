//! Stable sorting by insertion, stated once for any order and carried out for
//! integers and for rectangles.

use crate::geometry::BoundingBox;
use vstd::prelude::*;

verus! {

/// `s` with `x` put in behind the last element that `x` does not precede:
/// behind every element that is equal to it in the order.
pub open spec fn insert_sorted<T>(s: Seq<T>, x: T, le: spec_fn(T, T) -> bool) -> Seq<T>
    decreases s.len(),
{
    if s.len() == 0 || le(s.last(), x) {
        s.push(x)
    } else {
        insert_sorted(s.drop_last(), x, le).push(s.last())
    }
}

/// The elements of `s` in ascending order of `le`; elements that are equal in
/// the order keep the order in which they stood in `s`.
pub open spec fn sorted_by<T>(s: Seq<T>, le: spec_fn(T, T) -> bool) -> Seq<T>
    decreases s.len(),
{
    if s.len() == 0 {
        s
    } else {
        insert_sorted(sorted_by(s.drop_last(), le), s.last(), le)
    }
}

/// Every element precedes or equals, in `le`, each one behind it.
pub open spec fn is_sorted_by<T>(s: Seq<T>, le: spec_fn(T, T) -> bool) -> bool {
    forall|i: int, j: int| 0 <= i < j < s.len() ==> le(#[trigger] s[i], #[trigger] s[j])
}

/// `le` orders any two elements, one way or the other, and is transitive.
pub open spec fn is_total_order<T>(le: spec_fn(T, T) -> bool) -> bool {
    &&& forall|a: T, b: T| #[trigger] le(a, b) || #[trigger] le(b, a)
    &&& forall|a: T, b: T, c: T| #[trigger] le(a, b) && #[trigger] le(b, c) ==> le(a, c)
}

/// Inserting at the point behind which every element comes strictly after `x`.
pub proof fn lemma_insert_at<T>(s: Seq<T>, x: T, le: spec_fn(T, T) -> bool, j: int)
    requires
        0 <= j <= s.len(),
        forall|k: int| j <= k < s.len() ==> !le(#[trigger] s[k], x),
        j == 0 || le(s[j - 1], x),
    ensures
        insert_sorted(s, x, le) == s.insert(j, x),
    decreases s.len() - j,
{
    if j == s.len() {
        assert(s.insert(j, x) =~= s.push(x));
    } else {
        let t = s.drop_last();
        assert(!le(s.last(), x));
        assert forall|k: int| j <= k < t.len() implies !le(#[trigger] t[k], x) by {
            assert(t[k] == s[k]);
        }
        lemma_insert_at(t, x, le, j);
        assert(t.insert(j, x).push(s.last()) =~= s.insert(j, x));
    }
}

/// Insertion keeps the elements: the result holds those of `s`, and `x` once
/// more.
pub proof fn lemma_insert_elements<T>(s: Seq<T>, x: T, le: spec_fn(T, T) -> bool)
    ensures
        insert_sorted(s, x, le).to_multiset() == s.to_multiset().insert(x),
        insert_sorted(s, x, le).len() == s.len() + 1,
    decreases s.len(),
{
    broadcast use vstd::seq_lib::group_to_multiset_ensures;

    if s.len() == 0 || le(s.last(), x) {
    } else {
        let t = s.drop_last();
        lemma_insert_elements(t, x, le);
        assert(s =~= t.push(s.last()));
        assert(s.to_multiset() == t.to_multiset().insert(s.last()));
        assert(insert_sorted(s, x, le).to_multiset() =~= s.to_multiset().insert(x));
    }
}

/// Sorting keeps the elements, each as often as it occurred.
pub proof fn lemma_sorted_elements<T>(s: Seq<T>, le: spec_fn(T, T) -> bool)
    ensures
        sorted_by(s, le).to_multiset() == s.to_multiset(),
        sorted_by(s, le).len() == s.len(),
    decreases s.len(),
{
    broadcast use vstd::seq_lib::group_to_multiset_ensures;

    if s.len() > 0 {
        let t = s.drop_last();
        lemma_sorted_elements(t, le);
        lemma_insert_elements(sorted_by(t, le), s.last(), le);
        assert(s =~= t.push(s.last()));
    }
}

/// Every element of the result of an insertion is `x` or an element of `s`.
pub proof fn lemma_insert_members<T>(s: Seq<T>, x: T, le: spec_fn(T, T) -> bool)
    ensures
        forall|i: int|
            0 <= i < insert_sorted(s, x, le).len() ==> (#[trigger] insert_sorted(s, x, le)[i]
                == x || s.contains(insert_sorted(s, x, le)[i])),
    decreases s.len(),
{
    if s.len() == 0 || le(s.last(), x) {
        assert forall|i: int| 0 <= i < s.push(x).len() implies (#[trigger] s.push(x)[i] == x
            || s.contains(s.push(x)[i])) by {
            if i < s.len() {
                assert(s[i] == s.push(x)[i]);
            }
        }
    } else {
        let t = s.drop_last();
        lemma_insert_members(t, x, le);
        let r = insert_sorted(s, x, le);
        assert forall|i: int| 0 <= i < r.len() implies (#[trigger] r[i] == x || s.contains(
            r[i],
        )) by {
            lemma_insert_elements(t, x, le);
            if i < r.len() - 1 {
                let u = insert_sorted(t, x, le);
                assert(r[i] == u[i]);
                if u[i] != x {
                    let k = choose|k: int| 0 <= k < t.len() && t[k] == u[i];
                    assert(s[k] == u[i]);
                }
            } else {
                assert(r[i] == s.last());
                assert(s[s.len() - 1] == s.last());
            }
        }
    }
}

/// Insertion into a sorted sequence gives a sorted sequence.
pub proof fn lemma_insert_sorted<T>(s: Seq<T>, x: T, le: spec_fn(T, T) -> bool)
    requires
        is_total_order(le),
        is_sorted_by(s, le),
    ensures
        is_sorted_by(insert_sorted(s, x, le), le),
    decreases s.len(),
{
    if s.len() == 0 || le(s.last(), x) {
        let r = s.push(x);
        assert forall|i: int, j: int| 0 <= i < j < r.len() implies le(
            #[trigger] r[i],
            #[trigger] r[j],
        ) by {
            if j < s.len() {
                assert(le(s[i], s[j]));
            } else if i < s.len() - 1 {
                assert(le(s[i], s[s.len() - 1]));
                assert(le(s[i], s.last()) && le(s.last(), x));
            }
        }
    } else {
        let t = s.drop_last();
        assert forall|i: int, j: int| 0 <= i < j < t.len() implies le(
            #[trigger] t[i],
            #[trigger] t[j],
        ) by {
            assert(le(s[i], s[j]));
        }
        lemma_insert_sorted(t, x, le);
        lemma_insert_members(t, x, le);
        lemma_insert_elements(t, x, le);
        let u = insert_sorted(t, x, le);
        let r = u.push(s.last());
        assert(le(x, s.last()));
        assert forall|i: int, j: int| 0 <= i < j < r.len() implies le(
            #[trigger] r[i],
            #[trigger] r[j],
        ) by {
            if j < u.len() {
                assert(le(u[i], u[j]));
            } else {
                if u[i] != x {
                    let k = choose|k: int| 0 <= k < t.len() && t[k] == u[i];
                    assert(le(s[k], s[s.len() - 1]));
                }
            }
        }
    }
}

/// The result of sorting is sorted.
pub proof fn lemma_sorted_is_sorted<T>(s: Seq<T>, le: spec_fn(T, T) -> bool)
    requires
        is_total_order(le),
    ensures
        is_sorted_by(sorted_by(s, le), le),
    decreases s.len(),
{
    if s.len() > 0 {
        lemma_sorted_is_sorted(s.drop_last(), le);
        lemma_insert_sorted(sorted_by(s.drop_last(), le), s.last(), le);
    }
}

/// Every element of the sorted sequence is an element of `s`.
pub proof fn lemma_sorted_members<T>(s: Seq<T>, le: spec_fn(T, T) -> bool)
    ensures
        forall|i: int|
            0 <= i < sorted_by(s, le).len() ==> s.contains(#[trigger] sorted_by(s, le)[i]),
    decreases s.len(),
{
    if s.len() > 0 {
        let t = s.drop_last();
        lemma_sorted_members(t, le);
        lemma_insert_members(sorted_by(t, le), s.last(), le);
        let r = sorted_by(s, le);
        assert forall|i: int| 0 <= i < r.len() implies s.contains(#[trigger] r[i]) by {
            if r[i] == s.last() {
                assert(s[s.len() - 1] == r[i]);
            } else {
                let u = sorted_by(t, le);
                let k = choose|k: int| 0 <= k < u.len() && u[k] == r[i];
                let m = choose|m: int| 0 <= m < t.len() && t[m] == u[k];
                assert(s[m] == r[i]);
            }
        }
    }
}

/// The order of whole numbers.
pub open spec fn int_le() -> spec_fn(i64, i64) -> bool {
    |a: i64, b: i64| a <= b
}

/// Rectangles from top to bottom, and from left to right where they start at
/// the same height.
pub open spec fn reading_order() -> spec_fn(BoundingBox, BoundingBox) -> bool {
    |a: BoundingBox, b: BoundingBox| a.y < b.y || (a.y == b.y && a.x <= b.x)
}

/// Both orders order any two elements and are transitive.
pub proof fn lemma_orders_are_total()
    ensures
        is_total_order(int_le()),
        is_total_order(reading_order()),
{
}

/// The numbers of `v` in ascending order.
pub fn sort_numbers(v: &Vec<i64>) -> (out: Vec<i64>)
    ensures
        out@ == sorted_by(v@, int_le()),
        out.len() == v.len(),
{
    let ghost le = int_le();
    let mut out: Vec<i64> = Vec::new();
    let mut i: usize = 0;
    while i < v.len()
        invariant
            i <= v.len(),
            le == int_le(),
            out@ == sorted_by(v@.take(i as int), le),
            out.len() == i,
        decreases v.len() - i,
    {
        let x = v[i];
        let mut j: usize = out.len();
        while j > 0 && out[j - 1] > x
            invariant
                j <= out.len(),
                forall|k: int| j <= k < out.len() ==> out@[k] > x,
            decreases j,
        {
            j = j - 1;
        }
        proof {
            lemma_insert_at(out@, x, le, j as int);
            assert(v@.take(i + 1).drop_last() =~= v@.take(i as int));
        }
        out.insert(j, x);
        i = i + 1;
    }
    assert(v@.take(v.len() as int) =~= v@);
    out
}

/// The rectangles of `v` in reading order; rectangles with the same corner
/// keep their order.
pub fn sort_boxes(v: &Vec<BoundingBox>) -> (out: Vec<BoundingBox>)
    ensures
        out@ == sorted_by(v@, reading_order()),
        out.len() == v.len(),
{
    let ghost le = reading_order();
    let mut out: Vec<BoundingBox> = Vec::new();
    let mut i: usize = 0;
    while i < v.len()
        invariant
            i <= v.len(),
            le == reading_order(),
            out@ == sorted_by(v@.take(i as int), le),
            out.len() == i,
        decreases v.len() - i,
    {
        let b = v[i];
        let mut j: usize = out.len();
        while j > 0 && (out[j - 1].y > b.y || (out[j - 1].y == b.y && out[j - 1].x > b.x))
            invariant
                j <= out.len(),
                le == reading_order(),
                forall|k: int| j <= k < out.len() ==> !le(#[trigger] out@[k], b),
            decreases j,
        {
            j = j - 1;
        }
        proof {
            lemma_insert_at(out@, b, le, j as int);
            assert(v@.take(i + 1).drop_last() =~= v@.take(i as int));
        }
        out.insert(j, b);
        i = i + 1;
    }
    assert(v@.take(v.len() as int) =~= v@);
    out
}

} // verus!
