//! Small facts about sequences that several modules count and filter with.

use vstd::prelude::*;

verus! {

/// How many elements of `s` satisfy `p`.
pub open spec fn count_where<T>(s: Seq<T>, p: spec_fn(T) -> bool) -> nat
    decreases s.len(),
{
    if s.len() == 0 {
        0
    } else {
        count_where(s.drop_last(), p) + if p(s.last()) {
            1nat
        } else {
            0nat
        }
    }
}

/// Counting over the first `i + 1` elements adds the `i`-th to the count over
/// the first `i`.
pub proof fn lemma_count_step<T>(s: Seq<T>, p: spec_fn(T) -> bool, i: int)
    requires
        0 <= i < s.len(),
    ensures
        count_where(s.take(i + 1), p) == count_where(s.take(i), p) + if p(s[i]) {
            1nat
        } else {
            0nat
        },
        count_where(s.take(i + 1), p) <= i + 1,
    decreases i,
{
    assert(s.take(i + 1).drop_last() =~= s.take(i));
    lemma_count_bound(s.take(i), p);
}

/// No more elements satisfy `p` than there are.
pub proof fn lemma_count_bound<T>(s: Seq<T>, p: spec_fn(T) -> bool)
    ensures
        count_where(s, p) <= s.len(),
    decreases s.len(),
{
    if s.len() > 0 {
        lemma_count_bound(s.drop_last(), p);
    }
}

/// Each element either satisfies `p` or does not: the two counts add up to
/// the length.
pub proof fn lemma_count_partition<T>(s: Seq<T>, p: spec_fn(T) -> bool)
    ensures
        count_where(s, p) + count_where(s, |x: T| !p(x)) == s.len(),
    decreases s.len(),
{
    let q = |x: T| !p(x);
    if s.len() > 0 {
        lemma_count_partition(s.drop_last(), p);
        assert(q(s.last()) == !p(s.last()));
    }
}

} // verus!
