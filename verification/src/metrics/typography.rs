//! The typography metric: how the fonts of paired elements differ.
//!
//! For each pair of elements that both carry a style, four properties are
//! compared where both sides give them: the family, the size, the weight and
//! the line height. The score is the share of comparisons, four for each
//! pair, that found no difference.

use crate::metrics::matching::collect_elements;
use crate::metrics::matching::elements_in_range;
use crate::metrics::matching::indices;
use crate::metrics::matching::most;
use crate::metrics::matching::pair_elements;
use crate::metrics::matching::pairing_of;
use crate::metrics::matching::view_elements;
use crate::metrics::matching::Element;
use crate::metrics::matching::ElementModel;
use crate::metrics::layout::magnitude;
use crate::text::chars_of;
use crate::text::eq_ignore_case;
use crate::text::range_eq_ignore_case;
use crate::text::trim;
use crate::text::trim_bounds;
use crate::types::figma::TypographyStyle;
use crate::types::figma::TypographyStyleModel;
use crate::types::metric_results::TypographyDiff;
use crate::types::metric_results::TypographyDiffModel;
use crate::types::metric_results::TypographyIssue;
use crate::types::metric_results::TypographyMetric;
use crate::types::metric_results::SCORE_ONE;
use crate::types::view::NormalizedView;
use vstd::prelude::*;

verus! {

/// Sizes differ when they are more than this apart: one pixel, in millionths.
pub const SIZE_TOLERANCE: i64 = 1_000_000;

/// Weights differ when they are at least this far apart.
pub const WEIGHT_STEP: u32 = 100;

/// The character is a quotation mark, single or double.
pub open spec fn is_quote(c: char) -> bool {
    c == '"' || c == '\''
}

/// `s` without its quotation marks.
pub open spec fn unquoted(s: Seq<char>) -> Seq<char>
    decreases s.len(),
{
    if s.len() == 0 {
        s
    } else if is_quote(s.last()) {
        unquoted(s.drop_last())
    } else {
        unquoted(s.drop_last()).push(s.last())
    }
}

/// The name of a font family as it is compared: without quotation marks and
/// without white space around it.
pub open spec fn family_name(s: Seq<char>) -> Seq<char> {
    trim(unquoted(s))
}

/// The families differ, whatever the case of their ASCII letters.
pub open spec fn family_differs(a: Seq<char>, b: Seq<char>) -> bool {
    !eq_ignore_case(family_name(a), family_name(b))
}

/// The sizes are more than a pixel apart.
pub open spec fn size_differs(a: i64, b: i64) -> bool {
    magnitude(a - b) > SIZE_TOLERANCE
}

/// The character is a decimal digit.
pub open spec fn is_digit(c: char) -> bool {
    '0' <= c && c <= '9'
}

/// The number that a sequence of digits writes.
pub open spec fn digits_value(s: Seq<char>) -> nat
    decreases s.len(),
{
    if s.len() == 0 {
        0
    } else {
        10 * digits_value(s.drop_last()) + (s.last() as u32 - '0' as u32) as nat
    }
}

/// The weight that a text names: `normal` is 400, `bold` is 700, and up to
/// four digits are their number. Anything else names no weight.
pub open spec fn weight_value(s: Seq<char>) -> Option<nat> {
    let t = trim(s);
    if eq_ignore_case(t, "normal"@) {
        Some(400)
    } else if eq_ignore_case(t, "bold"@) {
        Some(700)
    } else if 0 < t.len() <= 4 && forall|i: int| 0 <= i < t.len() ==> is_digit(#[trigger] t[i]) {
        Some(digits_value(t))
    } else {
        None
    }
}

/// Both texts name a weight, and the weights are at least a step apart.
pub open spec fn weight_differs(a: Seq<char>, b: Seq<char>) -> bool {
    match (weight_value(a), weight_value(b)) {
        (Some(x), Some(y)) => magnitude(x - y) >= WEIGHT_STEP,
        _ => false,
    }
}

/// The line heights differ by more than a tenth of the reference's.
pub open spec fn line_height_differs(reference: i64, other: i64) -> bool {
    10 * magnitude(other - reference) > most(0, reference as int)
}

/// The issue where `present`, nothing otherwise.
pub open spec fn issue_if(present: bool, issue: TypographyIssue) -> Seq<TypographyIssue> {
    if present {
        seq![issue]
    } else {
        Seq::empty()
    }
}

/// The differences between two styles, in the order family, size, weight,
/// line height. A property that one side does not give is not compared.
pub open spec fn style_issues(a: TypographyStyleModel, b: TypographyStyleModel) -> Seq<
    TypographyIssue,
> {
    issue_if(
        a.font_family is Some && b.font_family is Some && family_differs(
            a.font_family->0,
            b.font_family->0,
        ),
        TypographyIssue::FontFamilyMismatch,
    ) + issue_if(
        a.font_size is Some && b.font_size is Some && size_differs(a.font_size->0, b.font_size->0),
        TypographyIssue::FontSizeDiff,
    ) + issue_if(
        a.font_weight is Some && b.font_weight is Some && weight_differs(
            a.font_weight->0,
            b.font_weight->0,
        ),
        TypographyIssue::FontWeightDiff,
    ) + issue_if(
        a.line_height is Some && b.line_height is Some && line_height_differs(
            a.line_height->0,
            b.line_height->0,
        ),
        TypographyIssue::LineHeightDiff,
    )
}

/// The element `r` is paired with an element, and both carry a style.
pub open spec fn is_styled_pair(r: ElementModel, partner: Option<int>, others: Seq<ElementModel>) -> bool {
    partner is Some && r.style is Some && others[partner->0].style is Some
}

/// What is reported for one element of the reference: the differences from
/// its partner, if it has one, both carry a style, and there are any.
pub open spec fn diffs_for(r: ElementModel, partner: Option<int>, others: Seq<ElementModel>) -> Seq<
    TypographyDiffModel,
> {
    if is_styled_pair(r, partner, others) {
        let o = others[partner->0];
        let issues = style_issues(r.style->0, o.style->0);
        if issues.len() > 0 {
            seq![
                TypographyDiffModel {
                    element_id_ref: Some(r.id),
                    element_id_impl: Some(o.id),
                    issues,
                    details: None,
                },
            ]
        } else {
            Seq::empty()
        }
    } else {
        Seq::empty()
    }
}

/// What the first `n` elements of the reference give: the number of styled
/// pairs, the number of differences, and the differences pair by pair.
pub open spec fn typography_upto(
    refs: Seq<ElementModel>,
    others: Seq<ElementModel>,
    pairing: Seq<Option<int>>,
    n: nat,
) -> (nat, nat, Seq<TypographyDiffModel>)
    decreases n,
{
    if n == 0 {
        (0, 0, Seq::empty())
    } else {
        let before = typography_upto(refs, others, pairing, (n - 1) as nat);
        let r = refs[n - 1];
        let p = pairing[n - 1];
        if is_styled_pair(r, p, others) {
            (
                before.0 + 1,
                before.1 + style_issues(r.style->0, others[p->0].style->0).len(),
                before.2 + diffs_for(r, p, others),
            )
        } else {
            before
        }
    }
}

/// The share of comparisons without a difference, in millionths.
pub open spec fn typography_score(pairs: nat, issues: nat) -> int
    recommends
        pairs > 0,
        issues <= 4 * pairs,
{
    ((4 * pairs - issues) * 1_000_000) / (4 * pairs) as int
}

/// What the typography metric finds for the elements of two sides: nothing
/// where no pair carries a style on both sides.
pub open spec fn typography_of(refs: Seq<ElementModel>, others: Seq<ElementModel>) -> Option<
    (int, Seq<TypographyDiffModel>),
> {
    let found = typography_upto(refs, others, pairing_of(refs, others), refs.len());
    if found.0 == 0 {
        None
    } else {
        Some((typography_score(found.0, found.1), found.2))
    }
}

/// The name of a font family as it is compared.
fn family_chars(s: &str) -> (out: Vec<char>)
    ensures
        out@ == family_name(s@),
{
    let v = chars_of(s);
    let mut bare: Vec<char> = Vec::new();
    let mut i: usize = 0;
    assert(v@.take(0) =~= Seq::<char>::empty());
    while i < v.len()
        invariant
            i <= v.len(),
            bare@ == unquoted(v@.take(i as int)),
        decreases v.len() - i,
    {
        proof {
            assert(v@.take(i + 1).drop_last() =~= v@.take(i as int));
        }
        if v[i] != '"' && v[i] != '\'' {
            bare.push(v[i]);
        }
        i = i + 1;
    }
    assert(v@.take(v.len() as int) =~= v@);
    trimmed(&bare)
}

/// `v` without the white space at its ends.
fn trimmed(v: &Vec<char>) -> (out: Vec<char>)
    ensures
        out@ == trim(v@),
{
    assert(v@.subrange(0, v.len() as int) =~= v@);
    let (a, b) = trim_bounds(v, 0, v.len());
    let mut out: Vec<char> = Vec::new();
    let mut i: usize = a;
    while i < b
        invariant
            a <= i <= b <= v.len(),
            out@ == v@.subrange(a as int, i as int),
        decreases b - i,
    {
        out.push(v[i]);
        i = i + 1;
        assert(out@ =~= v@.subrange(a as int, i as int));
    }
    out
}

fn equal_ignoring_case(a: &Vec<char>, b: &Vec<char>) -> (r: bool)
    ensures
        r == eq_ignore_case(a@, b@),
{
    assert(a@.subrange(0, a.len() as int) =~= a@);
    range_eq_ignore_case(a, 0, a.len(), b)
}

fn families_differ(a: &str, b: &str) -> (r: bool)
    ensures
        r == family_differs(a@, b@),
{
    !equal_ignoring_case(&family_chars(a), &family_chars(b))
}

/// The weight that a text names.
pub fn parse_weight(s: &str) -> (r: Option<u32>)
    ensures
        match weight_value(s@) {
            Some(w) => r == Some(w as u32) && w <= 9999,
            None => r is None,
        },
{
    let t = trimmed(&chars_of(s));
    if equal_ignoring_case(&t, &chars_of("normal")) {
        return Some(400);
    }
    if equal_ignoring_case(&t, &chars_of("bold")) {
        return Some(700);
    }
    if t.len() == 0 || t.len() > 4 {
        return None;
    }
    let mut value: u32 = 0;
    let mut i: usize = 0;
    assert(t@.take(0) =~= Seq::<char>::empty());
    while i < t.len()
        invariant
            i <= t.len() <= 4,
            0 < t.len(),
            t@ == trim(s@),
            !eq_ignore_case(t@, "normal"@),
            !eq_ignore_case(t@, "bold"@),
            forall|k: int| 0 <= k < i ==> is_digit(#[trigger] t@[k]),
            value == digits_value(t@.take(i as int)),
            value < pow10_upto(i as nat),
        decreases t.len() - i,
    {
        let c = t[i];
        if !('0' <= c && c <= '9') {
            assert(!is_digit(t@[i as int]));
            return None;
        }
        proof {
            assert(t@.take(i + 1).drop_last() =~= t@.take(i as int));
            assert(t@.take(i + 1).last() == c);
        }
        value = value * 10 + (c as u32 - '0' as u32);
        i = i + 1;
    }
    assert(t@.take(t.len() as int) =~= t@);
    Some(value)
}

/// Ten to the power `n`, for the few digits that a weight may have.
pub open spec fn pow10_upto(n: nat) -> nat {
    if n == 0 {
        1
    } else if n == 1 {
        10
    } else if n == 2 {
        100
    } else if n == 3 {
        1_000
    } else {
        10_000
    }
}

fn weights_differ(a: &str, b: &str) -> (r: bool)
    ensures
        r == weight_differs(a@, b@),
{
    match (parse_weight(a), parse_weight(b)) {
        (Some(x), Some(y)) => {
            let d = if x > y {
                x - y
            } else {
                y - x
            };
            d >= WEIGHT_STEP
        },
        _ => false,
    }
}

fn sizes_differ(a: i64, b: i64) -> (r: bool)
    ensures
        r == size_differs(a, b),
{
    let d: i128 = a as i128 - b as i128;
    let m: i128 = if d < 0 {
        -d
    } else {
        d
    };
    m > SIZE_TOLERANCE as i128
}

fn line_heights_differ(reference: i64, other: i64) -> (r: bool)
    ensures
        r == line_height_differs(reference, other),
{
    let d: i128 = other as i128 - reference as i128;
    let m: i128 = if d < 0 {
        -d
    } else {
        d
    };
    let base: i128 = if reference > 0 {
        reference as i128
    } else {
        0
    };
    10 * m > base
}

/// The differences between two styles.
pub fn compare_styles(a: &TypographyStyle, b: &TypographyStyle) -> (issues: Vec<TypographyIssue>)
    ensures
        issues@ == style_issues(a.deep_view(), b.deep_view()),
        issues.len() <= 4,
{
    let mut issues: Vec<TypographyIssue> = Vec::new();
    if let (Some(x), Some(y)) = (&a.font_family, &b.font_family) {
        if families_differ(x.as_str(), y.as_str()) {
            issues.push(TypographyIssue::FontFamilyMismatch);
        }
    }
    if let (Some(x), Some(y)) = (a.font_size, b.font_size) {
        if sizes_differ(x, y) {
            issues.push(TypographyIssue::FontSizeDiff);
        }
    }
    if let (Some(x), Some(y)) = (&a.font_weight, &b.font_weight) {
        if weights_differ(x.as_str(), y.as_str()) {
            issues.push(TypographyIssue::FontWeightDiff);
        }
    }
    if let (Some(x), Some(y)) = (a.line_height, b.line_height) {
        if line_heights_differ(x, y) {
            issues.push(TypographyIssue::LineHeightDiff);
        }
    }
    assert(issues@ =~= style_issues(a.deep_view(), b.deep_view()));
    issues
}

/// Compares the fonts of the paired elements of two sides.
pub fn compare_typography(refs: &Vec<Element>, others: &Vec<Element>) -> (r: Option<TypographyMetric>)
    requires
        elements_in_range(refs.deep_view()),
        elements_in_range(others.deep_view()),
    ensures
        match typography_of(refs.deep_view(), others.deep_view()) {
            Some((score, diffs)) => {
                &&& r is Some
                &&& r->0.score == score
                &&& r->0.score <= SCORE_ONE
                &&& r->0.diffs.deep_view() == diffs
            },
            None => r is None,
        },
{
    let ghost rs = refs.deep_view();
    let ghost os = others.deep_view();
    let (pairing, _used) = pair_elements(refs, others);
    let ghost ps = indices(pairing@);
    let mut diffs: Vec<TypographyDiff> = Vec::new();
    let mut pairs: usize = 0;
    let mut issues: u128 = 0;
    let mut i: usize = 0;
    assert(diffs.deep_view() =~= typography_upto(rs, os, ps, 0).2);
    while i < refs.len()
        invariant
            i <= refs.len(),
            rs == refs.deep_view(),
            os == others.deep_view(),
            pairing.len() == refs.len(),
            ps == indices(pairing@),
            forall|n: int|
                0 <= n < pairing.len() ==> (#[trigger] pairing@[n] matches Some(j) ==> j
                    < others.len()),
            pairs == typography_upto(rs, os, ps, i as nat).0,
            issues == typography_upto(rs, os, ps, i as nat).1,
            diffs.deep_view() == typography_upto(rs, os, ps, i as nat).2,
            pairs <= i,
            issues <= 4 * pairs,
        decreases refs.len() - i,
    {
        let ghost before = diffs.deep_view();
        let r = &refs[i];
        proof {
            assert(rs[i as int] == r.deep_view());
            assert(ps[i as int] == match pairing@[i as int] {
                Some(j) => Some(j as int),
                None => None,
            });
        }
        if let Some(j) = pairing[i] {
            let o = &others[j];
            proof {
                assert(os[j as int] == o.deep_view());
            }
            if let (Some(a), Some(b)) = (&r.style, &o.style) {
                let found = compare_styles(a, b);
                pairs = pairs + 1;
                issues = issues + found.len() as u128;
                if found.len() > 0 {
                    diffs.push(
                        TypographyDiff {
                            element_id_ref: Some(r.id.clone()),
                            element_id_impl: Some(o.id.clone()),
                            issues: found,
                            details: None,
                        },
                    );
                }
                assert(diffs.deep_view() =~= before + diffs_for(rs[i as int], ps[i as int], os));
            }
        }
        i = i + 1;
    }
    if pairs == 0 {
        return None;
    }
    let all: u128 = 4 * pairs as u128;
    assert(0 <= ((all - issues) * 1_000_000) / (all as int) <= 1_000_000) by (nonlinear_arith)
        requires
            0 <= issues <= all,
            all > 0,
    ;
    let score: u32 = ((all - issues) * 1_000_000 / all) as u32;
    Some(TypographyMetric { score, diffs })
}

/// Compares the typography of two views: nothing unless each carries a DOM
/// or a Figma tree over a raster that is not empty, and some pair of their
/// elements carries a style on both sides.
pub fn typography_metric(reference: &NormalizedView, implementation: &NormalizedView) -> (r: Option<
    TypographyMetric,
>)
    requires
        reference.coordinates_in_range(),
        implementation.coordinates_in_range(),
    ensures
        match (view_elements(*reference), view_elements(*implementation)) {
            (Some(refs), Some(others)) => match typography_of(refs, others) {
                Some((score, diffs)) => {
                    &&& r is Some
                    &&& r->0.score == score
                    &&& r->0.score <= SCORE_ONE
                    &&& r->0.diffs.deep_view() == diffs
                },
                None => r is None,
            },
            _ => r is None,
        },
{
    let refs = match collect_elements(reference) {
        Some(refs) => refs,
        None => {
            return None;
        },
    };
    let others = match collect_elements(implementation) {
        Some(others) => others,
        None => {
            return None;
        },
    };
    compare_typography(&refs, &others)
}

} // verus!
