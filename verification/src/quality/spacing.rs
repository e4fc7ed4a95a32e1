//! Consistency of the vertical gaps between rectangles.
//!
//! Rectangles with a positive height are put in reading order and the gap
//! from each to the next is measured. Gaps are sorted into buckets of one
//! hundredth of a unit. Many distinct buckets mean inconsistent spacing.

use crate::decimal::decimal;
use crate::decimal::fixed_text;
use crate::decimal::push_decimal;
use crate::decimal::push_fixed;
use crate::decimal::push_signed_fixed;
use crate::decimal::signed_fixed_text;
use crate::geometry::BoundingBox;
use crate::output::FindingSeverity;
use crate::output::QualityFinding;
use crate::output::QualityFindingModel;
use crate::output::QualityFindingType;
use crate::seqs::count_where;
use crate::seqs::lemma_count_bound;
use crate::seqs::lemma_count_step;
use crate::sorting::lemma_sorted_members;
use crate::sorting::reading_order;
use crate::sorting::sort_boxes;
use crate::sorting::sorted_by;
use crate::types::view::NormalizedView;
use std::collections::HashMap;
use vstd::prelude::*;
use vstd::string::StringExecFns;

verus! {

/// A gap counts when it is larger than this, in millionths.
pub const GAP_FLOOR: i64 = 1_000;

/// Width of a bucket, in millionths.
pub const BUCKET_WIDTH: i64 = 10_000;

/// With fewer gaps, or fewer distinct buckets, than this nothing is reported.
pub const MIN_GAPS: usize = 5;

/// The rectangles with a positive height, in their order.
pub open spec fn tall_boxes(boxes: Seq<BoundingBox>) -> Seq<BoundingBox>
    decreases boxes.len(),
{
    if boxes.len() == 0 {
        Seq::empty()
    } else {
        let rest = tall_boxes(boxes.drop_last());
        if boxes.last().height > 0 {
            rest.push(boxes.last())
        } else {
            rest
        }
    }
}

/// The distance from the bottom of `upper` to the top of `lower`.
pub open spec fn gap_between(upper: BoundingBox, lower: BoundingBox) -> int {
    lower.y - upper.bottom()
}

/// The gaps from each rectangle of `boxes` to the next, those over
/// `GAP_FLOOR` only.
pub open spec fn gaps_between(boxes: Seq<BoundingBox>) -> Seq<i64>
    decreases boxes.len(),
{
    if boxes.len() < 2 {
        Seq::empty()
    } else {
        let rest = gaps_between(boxes.drop_last());
        let gap = gap_between(boxes[boxes.len() - 2], boxes.last());
        if gap > GAP_FLOOR {
            rest.push(gap as i64)
        } else {
            rest
        }
    }
}

/// The vertical gaps of a view.
pub open spec fn vertical_gaps(view: NormalizedView) -> Seq<i64> {
    gaps_between(sorted_by(tall_boxes(view.boxes()), reading_order()))
}

/// The bucket of a gap: the gap in hundredths, rounded to the nearest whole
/// number, ties away from zero.
pub open spec fn bucket_of(gap: i64) -> i64 {
    if gap >= 0 {
        ((2 * gap + BUCKET_WIDTH) / (2 * BUCKET_WIDTH)) as i64
    } else {
        (-((2 * (-gap) + BUCKET_WIDTH) / (2 * BUCKET_WIDTH))) as i64
    }
}

/// The buckets of the gaps, in the order of the gaps.
pub open spec fn buckets_of(gaps: Seq<i64>) -> Seq<i64> {
    Seq::new(gaps.len(), |i: int| bucket_of(gaps[i]))
}

/// The bucket is `b`.
pub open spec fn equals(b: i64) -> spec_fn(i64) -> bool {
    |x: i64| x == b
}

/// How often `b` occurs in `bs`.
pub open spec fn multiplicity(bs: Seq<i64>, b: i64) -> nat {
    count_where(bs, equals(b))
}

/// The largest number of gaps that share one bucket.
pub open spec fn fullest_bucket(bs: Seq<i64>) -> nat
    decreases bs.len(),
{
    if bs.len() == 0 {
        0
    } else {
        let before = fullest_bucket(bs.drop_last());
        let here = multiplicity(bs, bs.last());
        if here > before {
            here
        } else {
            before
        }
    }
}

/// The smallest of `gaps`, but at most one unit.
pub open spec fn smallest_gap(gaps: Seq<i64>) -> int
    decreases gaps.len(),
{
    if gaps.len() == 0 {
        1_000_000
    } else {
        let before = smallest_gap(gaps.drop_last());
        if gaps.last() < before {
            gaps.last() as int
        } else {
            before
        }
    }
}

/// The largest of `gaps`, but at least nothing and at most one unit.
pub open spec fn largest_gap(gaps: Seq<i64>) -> int {
    let most = largest_of(gaps);
    if most > 1_000_000 {
        1_000_000
    } else {
        most
    }
}

/// The largest of `gaps`, but at least nothing.
pub open spec fn largest_of(gaps: Seq<i64>) -> int
    decreases gaps.len(),
{
    if gaps.len() == 0 {
        0
    } else {
        let before = largest_of(gaps.drop_last());
        if gaps.last() > before {
            gaps.last() as int
        } else {
            before
        }
    }
}

/// What an assessment of gaps rests on.
pub struct SpacingModel {
    pub samples: nat,
    pub distinct: nat,
    pub fullest: nat,
}

/// What the assessment of `gaps` rests on.
pub open spec fn spacing_of(gaps: Seq<i64>) -> SpacingModel {
    let bs = buckets_of(gaps);
    SpacingModel { samples: gaps.len(), distinct: bs.to_set().len(), fullest: fullest_bucket(bs) }
}

/// Whether the gaps are reported as inconsistent.
pub open spec fn is_inconsistent(gaps: Seq<i64>) -> bool {
    gaps.len() >= MIN_GAPS && spacing_of(gaps).distinct >= MIN_GAPS
}

/// The penalty for inconsistent gaps, in millionths: a twentieth, plus a
/// tenth of the share of gaps outside the fullest bucket, at most 0.15.
pub open spec fn spacing_penalty(gaps: Seq<i64>) -> int
    recommends
        gaps.len() > 0,
{
    let m = spacing_of(gaps);
    let raw = 50_000 + (m.samples - m.fullest) * 100_000 / (m.samples as int);
    if raw > 150_000 {
        150_000
    } else {
        raw
    }
}

/// What is said of inconsistent gaps: how many distinct buckets there are
/// among how many gaps, and the smallest and the largest gap in percent.
pub open spec fn spacing_message(gaps: Seq<i64>) -> Seq<char> {
    "Spacing appears inconsistent: "@ + decimal(spacing_of(gaps).distinct)
        + " distinct vertical gaps across "@ + decimal(gaps.len()) + " samples (min "@
        + signed_fixed_text(smallest_gap(gaps) * 100, 1) + "%, max "@ + fixed_text(
        (largest_gap(gaps) * 100) as nat,
        1,
    ) + "%)."@
}

/// The finding that reports inconsistent gaps.
pub open spec fn spacing_finding(gaps: Seq<i64>) -> QualityFindingModel {
    QualityFindingModel {
        severity: FindingSeverity::Warning,
        finding_type: QualityFindingType::SpacingInconsistent,
        message: spacing_message(gaps),
    }
}

/// The rectangles with a positive height, in their order.
pub fn collect_tall_boxes(boxes: &Vec<BoundingBox>) -> (out: Vec<BoundingBox>)
    ensures
        out@ == tall_boxes(boxes@),
        forall|i: int| 0 <= i < out.len() ==> boxes@.contains(#[trigger] out@[i]),
{
    let mut out: Vec<BoundingBox> = Vec::new();
    let mut i: usize = 0;
    while i < boxes.len()
        invariant
            i <= boxes.len(),
            out@ == tall_boxes(boxes@.take(i as int)),
            forall|k: int| 0 <= k < out.len() ==> boxes@.contains(#[trigger] out@[k]),
        decreases boxes.len() - i,
    {
        proof {
            assert(boxes@.take(i + 1).drop_last() =~= boxes@.take(i as int));
        }
        if boxes[i].height > 0 {
            out.push(boxes[i]);
            assert(boxes@[i as int] == out@[out.len() - 1]);
        }
        i = i + 1;
    }
    assert(boxes@.take(boxes.len() as int) =~= boxes@);
    out
}

/// The vertical gaps between the rectangles of the view.
pub fn collect_vertical_gaps(view: &NormalizedView) -> (gaps: Vec<i64>)
    requires
        view.coordinates_in_range(),
    ensures
        gaps@ == vertical_gaps(*view),
{
    let boxes = view.collect_boxes();
    let tall = collect_tall_boxes(&boxes);
    let sorted = sort_boxes(&tall);
    proof {
        lemma_sorted_members(tall@, reading_order());
        assert forall|i: int| 0 <= i < sorted.len() implies (#[trigger] sorted@[i]).in_range() by {
            let k = choose|k: int| 0 <= k < tall@.len() && tall@[k] == sorted@[i];
            let m = choose|m: int| 0 <= m < boxes@.len() && boxes@[m] == tall@[k];
            assert(view.boxes()[m].in_range());
        }
    }
    let mut gaps: Vec<i64> = Vec::new();
    if sorted.len() < 2 {
        return gaps;
    }
    let mut i: usize = 1;
    assert(gaps@ =~= gaps_between(sorted@.take(1)));
    while i < sorted.len()
        invariant
            1 <= i <= sorted.len(),
            forall|k: int| 0 <= k < sorted.len() ==> (#[trigger] sorted@[k]).in_range(),
            gaps@ == gaps_between(sorted@.take(i as int)),
        decreases sorted.len() - i,
    {
        proof {
            assert(sorted@.take(i + 1).drop_last() =~= sorted@.take(i as int));
            assert(sorted@[i - 1].in_range() && sorted@[i as int].in_range());
        }
        let upper = sorted[i - 1];
        let lower = sorted[i];
        let gap: i64 = lower.y - (upper.y + upper.height);
        if gap > GAP_FLOOR {
            gaps.push(gap);
        }
        i = i + 1;
    }
    assert(sorted@.take(sorted.len() as int) =~= sorted@);
    gaps
}

/// The bucket of a gap.
pub fn bucket_for(gap: i64) -> (b: i64)
    ensures
        b == bucket_of(gap),
{
    let wide: i128 = gap as i128;
    if wide >= 0 {
        ((2 * wide + BUCKET_WIDTH as i128) / (2 * BUCKET_WIDTH as i128)) as i64
    } else {
        (-((2 * (-wide) + BUCKET_WIDTH as i128) / (2 * BUCKET_WIDTH as i128))) as i64
    }
}

fn smallest_gap_of(gaps: &Vec<i64>) -> (r: i64)
    ensures
        r == smallest_gap(gaps@),
        r <= 1_000_000,
{
    let mut r: i64 = 1_000_000;
    let mut i: usize = 0;
    while i < gaps.len()
        invariant
            i <= gaps.len(),
            r == smallest_gap(gaps@.take(i as int)),
            r <= 1_000_000,
        decreases gaps.len() - i,
    {
        proof {
            assert(gaps@.take(i + 1).drop_last() =~= gaps@.take(i as int));
        }
        if gaps[i] < r {
            r = gaps[i];
        }
        i = i + 1;
    }
    assert(gaps@.take(gaps.len() as int) =~= gaps@);
    r
}

fn largest_gap_of(gaps: &Vec<i64>) -> (r: i64)
    ensures
        r == largest_gap(gaps@),
        0 <= r <= 1_000_000,
{
    let mut most: i64 = 0;
    let mut i: usize = 0;
    while i < gaps.len()
        invariant
            i <= gaps.len(),
            most == largest_of(gaps@.take(i as int)),
            0 <= most,
        decreases gaps.len() - i,
    {
        proof {
            assert(gaps@.take(i + 1).drop_last() =~= gaps@.take(i as int));
        }
        if gaps[i] > most {
            most = gaps[i];
        }
        i = i + 1;
    }
    assert(gaps@.take(gaps.len() as int) =~= gaps@);
    if most > 1_000_000 {
        1_000_000
    } else {
        most
    }
}

/// Sorts the gaps into buckets and returns how many buckets are in use and
/// how many gaps the fullest of them holds.
pub fn fill_buckets(gaps: &Vec<i64>) -> (r: (usize, usize))
    ensures
        r.0 == spacing_of(gaps@).distinct,
        r.1 == spacing_of(gaps@).fullest,
        r.0 <= gaps.len(),
        r.1 <= gaps.len(),
{
    broadcast use vstd::std_specs::hash::group_hash_axioms;

    let ghost bs = buckets_of(gaps@);
    let mut counts: HashMap<i64, usize> = HashMap::new();
    let mut fullest: usize = 0;
    let mut i: usize = 0;
    assert(bs.take(0).to_set() =~= Set::<i64>::empty());
    while i < gaps.len()
        invariant
            i <= gaps.len(),
            bs == buckets_of(gaps@),
            counts@.dom() == bs.take(i as int).to_set(),
            counts@.dom().finite(),
            counts@.dom().len() <= i,
            forall|b: i64| counts@.contains_key(b) ==> #[trigger] counts@[b] == multiplicity(bs.take(i as int), b),
            fullest == fullest_bucket(bs.take(i as int)),
            fullest <= i,
        decreases gaps.len() - i,
    {
        let b = bucket_for(gaps[i]);
        let ghost before = bs.take(i as int);
        let ghost after = bs.take(i + 1);
        proof {
            assert(bs[i as int] == b);
            assert(after.drop_last() =~= before);
            assert(after.last() == b);
            assert(after.to_set() =~= before.to_set().insert(b)) by {
                assert forall|x: i64| after.to_set().contains(x) == before.to_set().insert(
                    b,
                ).contains(x) by {
                    if after.contains(x) {
                        let k = choose|k: int| 0 <= k < after.len() && after[k] == x;
                        if k < i {
                            assert(before[k] == x);
                        }
                    }
                    if before.contains(x) {
                        let k = choose|k: int| 0 <= k < before.len() && before[k] == x;
                        assert(after[k] == x);
                    }
                    if x == b {
                        assert(after[i as int] == x);
                    }
                }
            }
            assert forall|x: i64| #[trigger] multiplicity(after, x) == multiplicity(before, x) + if x == b {
                1nat
            } else {
                0nat
            } && multiplicity(after, x) <= i + 1 by {
                lemma_count_step(bs, equals(x), i as int);
            }
            if !before.contains(b) {
                lemma_absent_not_counted(before, b);
            }
            lemma_count_bound(before, equals(b));
        }
        let seen: usize = match counts.get(&b) {
            Some(n) => *n,
            None => 0,
        };
        assert(seen == multiplicity(before, b));
        let now: usize = seen + 1;
        counts.insert(b, now);
        if now > fullest {
            fullest = now;
        }
        i = i + 1;
    }
    assert(bs.take(gaps.len() as int) =~= bs);
    (counts.len(), fullest)
}

/// What does not occur is counted zero times.
pub proof fn lemma_absent_not_counted(bs: Seq<i64>, b: i64)
    requires
        !bs.contains(b),
    ensures
        multiplicity(bs, b) == 0,
    decreases bs.len(),
{
    if bs.len() > 0 {
        let rest = bs.drop_last();
        assert(bs[bs.len() - 1] != b);
        assert forall|k: int| 0 <= k < rest.len() implies rest[k] != b by {
            assert(bs[k] == rest[k]);
        }
        lemma_absent_not_counted(rest, b);
    }
}

fn spacing_text(distinct: usize, samples: usize, smallest: i64, largest: i64) -> (text: String)
    requires
        0 <= largest <= 1_000_000,
    ensures
        text@ == "Spacing appears inconsistent: "@ + decimal(distinct as nat)
            + " distinct vertical gaps across "@ + decimal(samples as nat) + " samples (min "@
            + signed_fixed_text(smallest * 100, 1) + "%, max "@ + fixed_text(
            (largest * 100) as nat,
            1,
        ) + "%)."@,
{
    let mut text = String::from_str("Spacing appears inconsistent: ");
    push_decimal(&mut text, distinct as u128);
    text.append(" distinct vertical gaps across ");
    push_decimal(&mut text, samples as u128);
    text.append(" samples (min ");
    push_signed_fixed(&mut text, smallest as i128 * 100, 1);
    text.append("%, max ");
    push_fixed(&mut text, largest as u128 * 100, 1);
    text.append("%).");
    assert(text@ =~= "Spacing appears inconsistent: "@ + decimal(distinct as nat)
        + " distinct vertical gaps across "@ + decimal(samples as nat) + " samples (min "@
        + signed_fixed_text(smallest * 100, 1) + "%, max "@ + fixed_text(
        (largest * 100) as nat,
        1,
    ) + "%)."@);
    text
}

/// Judges the gaps. Where there are at least `MIN_GAPS` of them in at least
/// `MIN_GAPS` distinct buckets, returns the finding to report and the penalty
/// in millionths; nothing otherwise.
pub fn evaluate_spacing(gaps: &Vec<i64>) -> (r: Option<(QualityFinding, u32)>)
    ensures
        r is Some <==> is_inconsistent(gaps@),
        match r {
            Some((finding, penalty)) => {
                &&& finding.deep_view() == spacing_finding(gaps@)
                &&& penalty == spacing_penalty(gaps@)
                &&& 50_000 <= penalty <= 150_000
            },
            None => true,
        },
{
    if gaps.len() < MIN_GAPS {
        return None;
    }
    let (distinct, fullest) = fill_buckets(gaps);
    if distinct < MIN_GAPS {
        return None;
    }
    let total = gaps.len();
    let outside: u128 = (total - fullest) as u128;
    assert(0 <= (total - fullest) * 100_000 / (total as int) <= 100_000) by (nonlinear_arith)
        requires
            0 <= fullest <= total,
            total > 0,
    ;
    let raw: u128 = 50_000 + outside * 100_000 / (total as u128);
    let penalty: u32 = if raw > 150_000 {
        150_000
    } else {
        raw as u32
    };
    let message = spacing_text(distinct, total, smallest_gap_of(gaps), largest_gap_of(gaps));
    Some(
        (
            QualityFinding {
                severity: FindingSeverity::Warning,
                finding_type: QualityFindingType::SpacingInconsistent,
                message,
            },
            penalty,
        ),
    )
}

/// The fullest bucket holds at least as many gaps as any bucket, and some
/// bucket holds exactly that many.
pub proof fn law_fullest_bucket_is_the_largest(bs: Seq<i64>)
    ensures
        forall|b: i64| #[trigger] multiplicity(bs, b) <= fullest_bucket(bs),
        bs.len() > 0 ==> exists|k: int|
            0 <= k < bs.len() && multiplicity(bs, #[trigger] bs[k]) == fullest_bucket(bs),
    decreases bs.len(),
{
    if bs.len() == 0 {
        assert forall|b: i64| #[trigger] multiplicity(bs, b) <= fullest_bucket(bs) by {
            lemma_count_bound(bs, equals(b));
        }
    } else {
        let rest = bs.drop_last();
        let last = bs.last();
        law_fullest_bucket_is_the_largest(rest);
        assert forall|b: i64| #[trigger] multiplicity(bs, b) <= fullest_bucket(bs) by {
            assert(multiplicity(rest, b) <= fullest_bucket(rest));
        }
        if multiplicity(bs, last) > fullest_bucket(rest) {
            assert(bs[bs.len() - 1] == last);
        } else {
            assert(rest.len() > 0) by {
                lemma_count_bound(rest, equals(last));
            }
            let k = choose|k: int|
                0 <= k < rest.len() && multiplicity(rest, #[trigger] rest[k]) == fullest_bucket(
                    rest,
                );
            assert(bs[k] == rest[k]);
            assert(multiplicity(bs, bs[k]) >= multiplicity(rest, rest[k]));
        }
    }
}

} // verus!
