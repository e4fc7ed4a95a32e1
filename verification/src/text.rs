//! Character-level helpers shared by the rest of the crate: conversion between
//! strings and character vectors, ASCII case folding, whitespace trimming,
//! splitting and prefix tests. Every contract is stated over `Seq<char>`.

use vstd::prelude::*;

verus! {

/// `String::push` appends exactly one character to the end of the string and
/// leaves the characters before it untouched.
pub assume_specification[ String::push ](s: &mut String, c: char)
    ensures
        final(s)@ == old(s)@.push(c),
;

/// The characters of `s`, in order.
pub fn chars_of(s: &str) -> (out: Vec<char>)
    ensures
        out@ == s@,
{
    let mut out: Vec<char> = Vec::new();
    for c in it: s.chars()
        invariant
            it.seq() == s@,
            out@ == s@.subrange(0, it.index() as int),
    {
        out.push(c);
        assert(out@ =~= s@.subrange(0, it.index() + 1));
    }
    assert(s@.subrange(0, s@.len() as int) =~= s@);
    out
}

/// ASCII lower-casing of one character: `A`..`Z` map to `a`..`z`, every other
/// character is left as it is.
pub open spec fn lower(c: char) -> char {
    if 'A' <= c && c <= 'Z' {
        ((c as u8) + 32) as char
    } else {
        c
    }
}

/// ASCII lower-casing of a whole sequence.
pub open spec fn lower_seq(s: Seq<char>) -> Seq<char> {
    Seq::new(s.len(), |i: int| lower(s[i]))
}

/// Equality of two sequences up to ASCII case.
pub open spec fn eq_ignore_case(a: Seq<char>, b: Seq<char>) -> bool {
    lower_seq(a) == lower_seq(b)
}

/// ASCII lower-casing of one character.
pub fn to_lower(c: char) -> (r: char)
    ensures
        r == lower(c),
{
    if 'A' <= c && c <= 'Z' {
        ((c as u8) + 32) as char
    } else {
        c
    }
}

/// ASCII upper-casing of one character: `a`..`z` map to `A`..`Z`, every other
/// character is left as it is.
pub open spec fn upper(c: char) -> char {
    if 'a' <= c && c <= 'z' {
        ((c as u8) - 32) as char
    } else {
        c
    }
}

/// ASCII upper-casing of a whole sequence.
pub open spec fn upper_seq(s: Seq<char>) -> Seq<char> {
    Seq::new(s.len(), |i: int| upper(s[i]))
}

/// ASCII upper-casing of one character.
pub fn to_upper(c: char) -> (r: char)
    ensures
        r == upper(c),
{
    if 'a' <= c && c <= 'z' {
        ((c as u8) - 32) as char
    } else {
        c
    }
}

/// Appends `s`, upper-cased, to `out`.
pub fn push_upper(out: &mut String, s: &str)
    ensures
        final(out)@ == old(out)@ + upper_seq(s@),
{
    let v = chars_of(s);
    let mut i: usize = 0;
    while i < v.len()
        invariant
            i <= v.len(),
            v@ == s@,
            out@ == old(out)@ + upper_seq(s@.subrange(0, i as int)),
        decreases v.len() - i,
    {
        out.push(to_upper(v[i]));
        i = i + 1;
        assert(out@ =~= old(out)@ + upper_seq(s@.subrange(0, i as int)));
    }
    assert(s@.subrange(0, v.len() as int) =~= s@);
}

/// `s[from..to]` lower-cased, as a string.
pub fn lower_string_of_range(v: &Vec<char>, from: usize, to: usize) -> (out: String)
    requires
        from <= to <= v.len(),
    ensures
        out@ == lower_seq(v@.subrange(from as int, to as int)),
{
    let mut out = String::new();
    let mut i: usize = from;
    while i < to
        invariant
            from <= i <= to <= v.len(),
            out@ == lower_seq(v@.subrange(from as int, i as int)),
        decreases to - i,
    {
        out.push(to_lower(v[i]));
        i = i + 1;
        assert(out@ =~= lower_seq(v@.subrange(from as int, i as int)));
    }
    out
}

/// Whether `a[a_from..a_to]` and `b` are equal up to ASCII case.
pub fn range_eq_ignore_case(a: &Vec<char>, a_from: usize, a_to: usize, b: &Vec<char>) -> (r: bool)
    requires
        a_from <= a_to <= a.len(),
    ensures
        r == eq_ignore_case(a@.subrange(a_from as int, a_to as int), b@),
{
    let ghost left = a@.subrange(a_from as int, a_to as int);
    if a_to - a_from != b.len() {
        assert(lower_seq(left).len() != lower_seq(b@).len());
        return false;
    }
    let n = b.len();
    let mut i: usize = 0;
    while i < n
        invariant
            a_from <= a_to <= a.len(),
            n == b.len(),
            n == a_to - a_from,
            i <= n,
            left == a@.subrange(a_from as int, a_to as int),
            forall|k: int| 0 <= k < i ==> lower(left[k]) == lower(b@[k]),
        decreases n - i,
    {
        if to_lower(a[a_from + i]) != to_lower(b[i]) {
            assert(lower_seq(left)[i as int] != lower_seq(b@)[i as int]);
            return false;
        }
        i = i + 1;
    }
    assert(lower_seq(left) =~= lower_seq(b@));
    true
}

/// Whether `a` and `b` are equal up to ASCII case.
pub fn str_eq_ignore_case(a: &str, b: &str) -> (r: bool)
    ensures
        r == eq_ignore_case(a@, b@),
{
    let av = chars_of(a);
    let bv = chars_of(b);
    assert(av@.subrange(0, av.len() as int) =~= av@);
    range_eq_ignore_case(&av, 0, av.len(), &bv)
}

/// Whether two strings hold the same characters.
pub fn str_equal(a: &str, b: &str) -> (r: bool)
    ensures
        r == (a@ == b@),
{
    let av = chars_of(a);
    let bv = chars_of(b);
    if av.len() != bv.len() {
        return false;
    }
    let mut i: usize = 0;
    while i < av.len()
        invariant
            i <= av.len(),
            av.len() == bv.len(),
            av@ == a@,
            bv@ == b@,
            forall|k: int| 0 <= k < i ==> av@[k] == bv@[k],
        decreases av.len() - i,
    {
        if av[i] != bv[i] {
            assert(a@[i as int] != b@[i as int]);
            return false;
        }
        i = i + 1;
    }
    assert(av@ =~= bv@);
    true
}

/// The characters with the Unicode property White_Space.
pub open spec fn is_space(c: char) -> bool {
    let n = c as u32;
    ||| (0x09 <= n && n <= 0x0D)
    ||| n == 0x20
    ||| n == 0x85
    ||| n == 0xA0
    ||| n == 0x1680
    ||| (0x2000 <= n && n <= 0x200A)
    ||| n == 0x2028
    ||| n == 0x2029
    ||| n == 0x202F
    ||| n == 0x205F
    ||| n == 0x3000
}

/// Whether the character is white space.
pub fn char_is_space(c: char) -> (r: bool)
    ensures
        r == is_space(c),
{
    let n: u32 = c as u32;
    (0x09 <= n && n <= 0x0D) || n == 0x20 || n == 0x85 || n == 0xA0 || n == 0x1680 || (0x2000 <= n
        && n <= 0x200A) || n == 0x2028 || n == 0x2029 || n == 0x202F || n == 0x205F || n == 0x3000
}

/// Every character of `s` is white space (true of the empty sequence).
pub open spec fn is_blank(s: Seq<char>) -> bool {
    forall|i: int| 0 <= i < s.len() ==> is_space(#[trigger] s[i])
}

/// Number of white-space characters at the start of `s`.
pub open spec fn leading_spaces(s: Seq<char>) -> nat
    decreases s.len(),
{
    if s.len() == 0 || !is_space(s[0]) {
        0
    } else {
        1 + leading_spaces(s.drop_first())
    }
}

/// Number of white-space characters at the end of `s`.
pub open spec fn trailing_spaces(s: Seq<char>) -> nat
    decreases s.len(),
{
    if s.len() == 0 || !is_space(s.last()) {
        0
    } else {
        1 + trailing_spaces(s.drop_last())
    }
}

/// `s` without the white space at its start.
pub open spec fn trim_start(s: Seq<char>) -> Seq<char> {
    s.subrange(leading_spaces(s) as int, s.len() as int)
}

/// `s` without the white space at its start and at its end.
pub open spec fn trim(s: Seq<char>) -> Seq<char> {
    let t = trim_start(s);
    t.subrange(0, t.len() - trailing_spaces(t))
}

/// There are `k` white-space characters at the start of `s` where the first
/// `k` are white space and the next one, if any, is not.
pub proof fn lemma_leading_spaces(s: Seq<char>, k: int)
    requires
        0 <= k <= s.len(),
        forall|i: int| 0 <= i < k ==> is_space(#[trigger] s[i]),
        k == s.len() || !is_space(s[k]),
    ensures
        leading_spaces(s) == k,
    decreases k,
{
    if k > 0 {
        let t = s.drop_first();
        assert forall|i: int| 0 <= i < k - 1 implies is_space(#[trigger] t[i]) by {
            assert(t[i] == s[i + 1]);
        }
        if k - 1 < t.len() {
            assert(t[k - 1] == s[k]);
        }
        lemma_leading_spaces(t, k - 1);
    }
}

/// There are `k` white-space characters at the end of `s` where the last `k`
/// are white space and the one before them, if any, is not.
pub proof fn lemma_trailing_spaces(s: Seq<char>, k: int)
    requires
        0 <= k <= s.len(),
        forall|i: int| s.len() - k <= i < s.len() ==> is_space(#[trigger] s[i]),
        k == s.len() || !is_space(s[s.len() - k - 1]),
    ensures
        trailing_spaces(s) == k,
    decreases k,
{
    if k > 0 {
        let t = s.drop_last();
        assert forall|i: int| t.len() - (k - 1) <= i < t.len() implies is_space(#[trigger] t[i]) by {
            assert(t[i] == s[i]);
        }
        if k - 1 < t.len() {
            assert(t[t.len() - (k - 1) - 1] == s[s.len() - k - 1]);
        }
        lemma_trailing_spaces(t, k - 1);
    }
}

/// The bounds `(a, b)` of `trim(v[from..to])` inside `v`.
pub fn trim_bounds(v: &Vec<char>, from: usize, to: usize) -> (r: (usize, usize))
    requires
        from <= to <= v.len(),
    ensures
        from <= r.0 <= r.1 <= to,
        v@.subrange(r.0 as int, r.1 as int) == trim(v@.subrange(from as int, to as int)),
        (r.0 == r.1) == is_blank(v@.subrange(from as int, to as int)),
{
    let ghost s = v@.subrange(from as int, to as int);
    let mut a: usize = from;
    while a < to && char_is_space(v[a])
        invariant
            from <= a <= to <= v.len(),
            s == v@.subrange(from as int, to as int),
            forall|i: int| 0 <= i < a - from ==> is_space(#[trigger] s[i]),
        decreases to - a,
    {
        a = a + 1;
    }
    proof {
        lemma_leading_spaces(s, a - from);
    }
    let ghost t = trim_start(s);
    assert(t =~= v@.subrange(a as int, to as int));
    let mut b: usize = to;
    while b > a && char_is_space(v[b - 1])
        invariant
            from <= a <= b <= to <= v.len(),
            t == v@.subrange(a as int, to as int),
            forall|i: int| b - a <= i < to - a ==> is_space(#[trigger] t[i]),
        decreases b - a,
    {
        b = b - 1;
    }
    proof {
        lemma_trailing_spaces(t, to - b);
        assert(v@.subrange(a as int, b as int) =~= t.subrange(0, t.len() - trailing_spaces(t)));
        if a == b {
            assert forall|i: int| 0 <= i < s.len() implies is_space(#[trigger] s[i]) by {
                if i >= a - from {
                    assert(s[i] == t[i - (a - from)]);
                }
            }
        } else {
            assert(!is_space(s[a - from]));
        }
    }
    (a, b)
}

/// Whether `s` has a character that is not white space.
pub fn has_visible_text(s: &str) -> (r: bool)
    ensures
        r == !is_blank(s@),
{
    let v = chars_of(s);
    assert(v@.subrange(0, v.len() as int) =~= v@);
    let (a, b) = trim_bounds(&v, 0, v.len());
    a != b
}

/// `p` is a prefix of `s`.
pub open spec fn starts_with(s: Seq<char>, p: Seq<char>) -> bool {
    p.len() <= s.len() && s.subrange(0, p.len() as int) == p
}

/// Whether `v[from..]` starts with `p`.
pub fn range_starts_with(v: &Vec<char>, from: usize, p: &Vec<char>) -> (r: bool)
    requires
        from <= v.len(),
    ensures
        r == starts_with(v@.subrange(from as int, v.len() as int), p@),
{
    let ghost s = v@.subrange(from as int, v.len() as int);
    if v.len() - from < p.len() {
        return false;
    }
    let n = p.len();
    let mut i: usize = 0;
    while i < n
        invariant
            from <= v.len(),
            n == p.len(),
            n <= v.len() - from,
            i <= n,
            s == v@.subrange(from as int, v.len() as int),
            forall|k: int| 0 <= k < i ==> s[k] == p@[k],
        decreases n - i,
    {
        if v[from + i] != p[i] {
            assert(s.subrange(0, n as int)[i as int] != p@[i as int]);
            return false;
        }
        i = i + 1;
    }
    assert(s.subrange(0, n as int) =~= p@);
    true
}

} // verus!
