//! The human-readable summary of a comparison.
//!
//! The first line gives the verdict. It is followed, metric by metric, by
//! counts drawn from the differences of each metric that scored under
//! `ATTENTION_BELOW`.

use crate::decimal::decimal;
use crate::decimal::fixed_text;
use crate::decimal::push_decimal;
use crate::decimal::push_fixed;
use crate::decimal::round_half_up;
use crate::output::Summary;
use crate::seqs::count_where;
use crate::seqs::lemma_count_step;
use crate::types::metric_results::ColorMetric;
use crate::types::metric_results::ContentMetric;
use crate::types::metric_results::DiffSeverity;
use crate::types::metric_results::LayoutDiffKind;
use crate::types::metric_results::LayoutDiffRegion;
use crate::types::metric_results::LayoutMetric;
use crate::types::metric_results::MetricScores;
use crate::types::metric_results::PixelDiffRegion;
use crate::types::metric_results::PixelMetric;
use crate::types::metric_results::TypographyDiff;
use crate::types::metric_results::TypographyIssue;
use crate::types::metric_results::TypographyMetric;
use vstd::prelude::*;
use vstd::string::StringExecFns;

verus! {

/// A metric that scores under this gets its differences summarised.
pub const ATTENTION_BELOW: u32 = 900_000;

/// The most lines that a summary can have.
pub const SUMMARY_BUDGET: usize = 11;

/// A score or threshold as a percentage with one decimal place.
pub open spec fn percent_text(millionths: u32) -> Seq<char> {
    fixed_text(millionths as nat * 100, 1)
}

/// The verdict line.
pub open spec fn headline(similarity: u32, threshold: u32) -> Seq<char> {
    (if similarity >= threshold {
        "Design parity check passed ("@
    } else {
        "Design parity check failed ("@
    }) + percent_text(similarity) + "% similarity, threshold: "@ + percent_text(threshold)
        + "%)"@
}

/// The line `line` if `present`, else nothing.
pub open spec fn line_if(present: bool, line: Seq<char>) -> Seq<Seq<char>> {
    if present {
        seq![line]
    } else {
        Seq::empty()
    }
}

/// A count followed by what was counted; nothing when the count is zero.
pub open spec fn counted(n: nat, what: Seq<char>) -> Seq<Seq<char>> {
    line_if(n > 0, decimal(n) + what)
}

/// The region differs severely.
pub open spec fn is_major() -> spec_fn(PixelDiffRegion) -> bool {
    |r: PixelDiffRegion| r.severity == DiffSeverity::Major
}

/// The region reports a difference of `kind`.
pub open spec fn has_kind(kind: LayoutDiffKind) -> spec_fn(LayoutDiffRegion) -> bool {
    |r: LayoutDiffRegion| r.kind == kind
}

/// The differences of the element include `issue`.
pub open spec fn has_issue(issue: TypographyIssue) -> spec_fn(TypographyDiff) -> bool {
    |d: TypographyDiff| d.issues@.contains(issue)
}

/// The share of the image that differs, in whole percent.
pub open spec fn differing_percent(score: u32) -> nat
    recommends
        score <= 1_000_000,
{
    round_half_up((1_000_000 - score) as nat, 10_000)
}

/// The lines on the pixel metric: the share of the image that differs, and
/// the number of severe regions.
pub open spec fn pixel_lines(m: PixelMetric) -> Seq<Seq<char>> {
    if m.score < ATTENTION_BELOW {
        seq![
            "Pixel differences detected in ~"@ + decimal(differing_percent(m.score))
                + "% of the image"@,
        ] + counted(
            count_where(m.diff_regions@, is_major()),
            " major visual difference region(s) found"@,
        )
    } else {
        Seq::empty()
    }
}

/// The lines on the layout metric: how many elements are missing, extra and
/// shifted.
pub open spec fn layout_lines(m: LayoutMetric) -> Seq<Seq<char>> {
    if m.score < ATTENTION_BELOW {
        counted(
            count_where(m.diff_regions@, has_kind(LayoutDiffKind::MissingElement)),
            " element(s) missing from implementation"@,
        ) + counted(
            count_where(m.diff_regions@, has_kind(LayoutDiffKind::ExtraElement)),
            " extra element(s) in implementation"@,
        ) + counted(
            count_where(m.diff_regions@, has_kind(LayoutDiffKind::PositionShift)),
            " element(s) shifted from expected position"@,
        )
    } else {
        Seq::empty()
    }
}

/// The lines on the typography metric: how many elements differ in family
/// and in size.
pub open spec fn typography_lines(m: TypographyMetric) -> Seq<Seq<char>> {
    if m.score < ATTENTION_BELOW {
        counted(
            count_where(m.diffs@, has_issue(TypographyIssue::FontFamilyMismatch)),
            " element(s) have mismatched font families"@,
        ) + counted(
            count_where(m.diffs@, has_issue(TypographyIssue::FontSizeDiff)),
            " element(s) have incorrect font sizes"@,
        )
    } else {
        Seq::empty()
    }
}

/// The line on the color metric: how many colors differ.
pub open spec fn color_lines(m: ColorMetric) -> Seq<Seq<char>> {
    if m.score < ATTENTION_BELOW {
        counted(m.diffs@.len(), " color difference(s) detected in palette"@)
    } else {
        Seq::empty()
    }
}

/// The lines on the content metric: how many texts are missing and extra.
pub open spec fn content_lines(m: ContentMetric) -> Seq<Seq<char>> {
    if m.score < ATTENTION_BELOW {
        counted(m.missing_text@.len(), " text element(s) missing from implementation"@)
            + counted(m.extra_text@.len(), " extra text element(s) in implementation"@)
    } else {
        Seq::empty()
    }
}

/// All lines of the summary, the verdict first. A metric that did not run
/// contributes none.
pub open spec fn summary_lines(scores: MetricScores, similarity: u32, threshold: u32) -> Seq<
    Seq<char>,
> {
    seq![headline(similarity, threshold)] + (match scores.pixel {
        Some(m) => pixel_lines(m),
        None => Seq::empty(),
    }) + (match scores.layout {
        Some(m) => layout_lines(m),
        None => Seq::empty(),
    }) + (match scores.typography {
        Some(m) => typography_lines(m),
        None => Seq::empty(),
    }) + (match scores.color {
        Some(m) => color_lines(m),
        None => Seq::empty(),
    }) + (match scores.content {
        Some(m) => content_lines(m),
        None => Seq::empty(),
    })
}

fn count_major(regions: &Vec<PixelDiffRegion>) -> (n: usize)
    ensures
        n == count_where(regions@, is_major()),
{
    let ghost p = is_major();
    let mut n: usize = 0;
    let mut i: usize = 0;
    while i < regions.len()
        invariant
            i <= regions.len(),
            p == is_major(),
            n == count_where(regions@.take(i as int), p),
            n <= i,
        decreases regions.len() - i,
    {
        proof {
            lemma_count_step(regions@, p, i as int);
        }
        if regions[i].severity == DiffSeverity::Major {
            n = n + 1;
        }
        i = i + 1;
    }
    assert(regions@.take(regions.len() as int) =~= regions@);
    n
}

fn count_kind(regions: &Vec<LayoutDiffRegion>, kind: LayoutDiffKind) -> (n: usize)
    ensures
        n == count_where(regions@, has_kind(kind)),
{
    let ghost p = has_kind(kind);
    let mut n: usize = 0;
    let mut i: usize = 0;
    while i < regions.len()
        invariant
            i <= regions.len(),
            p == has_kind(kind),
            n == count_where(regions@.take(i as int), p),
            n <= i,
        decreases regions.len() - i,
    {
        proof {
            lemma_count_step(regions@, p, i as int);
        }
        if regions[i].kind == kind {
            n = n + 1;
        }
        i = i + 1;
    }
    assert(regions@.take(regions.len() as int) =~= regions@);
    n
}

fn issues_contain(issues: &Vec<TypographyIssue>, issue: TypographyIssue) -> (r: bool)
    ensures
        r == issues@.contains(issue),
{
    let mut i: usize = 0;
    while i < issues.len()
        invariant
            i <= issues.len(),
            forall|k: int| 0 <= k < i ==> issues@[k] != issue,
        decreases issues.len() - i,
    {
        if issues[i] == issue {
            return true;
        }
        i = i + 1;
    }
    false
}

fn count_issue(diffs: &Vec<TypographyDiff>, issue: TypographyIssue) -> (n: usize)
    ensures
        n == count_where(diffs@, has_issue(issue)),
{
    let ghost p = has_issue(issue);
    let mut n: usize = 0;
    let mut i: usize = 0;
    while i < diffs.len()
        invariant
            i <= diffs.len(),
            p == has_issue(issue),
            n == count_where(diffs@.take(i as int), p),
            n <= i,
        decreases diffs.len() - i,
    {
        proof {
            lemma_count_step(diffs@, p, i as int);
        }
        if issues_contain(&diffs[i].issues, issue) {
            n = n + 1;
        }
        i = i + 1;
    }
    assert(diffs@.take(diffs.len() as int) =~= diffs@);
    n
}

/// Appends the line for `n` things of the kind `what`, unless `n` is zero.
fn push_counted(lines: &mut Vec<String>, n: usize, what: &str)
    ensures
        final(lines).deep_view() == old(lines).deep_view() + counted(n as nat, what@),
{
    if n > 0 {
        let mut line = String::new();
        push_decimal(&mut line, n as u128);
        line.append(what);
        assert(line@ =~= decimal(n as nat) + what@);
        lines.push(line);
    }
    assert(final(lines).deep_view() =~= old(lines).deep_view() + counted(n as nat, what@));
}

fn push_percent(line: &mut String, millionths: u32)
    ensures
        final(line)@ == old(line)@ + percent_text(millionths),
{
    push_fixed(line, millionths as u128 * 100, 1);
}

fn push_pixel_lines(lines: &mut Vec<String>, m: &PixelMetric)
    ensures
        final(lines).deep_view() == old(lines).deep_view() + pixel_lines(*m),
{
    if m.score < ATTENTION_BELOW {
        let share: u128 = (2 * (1_000_000 - m.score as u128) + 10_000) / 20_000;
        let mut line = String::from_str("Pixel differences detected in ~");
        push_decimal(&mut line, share);
        line.append("% of the image");
        let ghost first = line@;
        lines.push(line);
        assert(lines.deep_view() =~= old(lines).deep_view() + seq![first]);
        let major = count_major(&m.diff_regions);
        push_counted(lines, major, " major visual difference region(s) found");
    }
    assert(final(lines).deep_view() =~= old(lines).deep_view() + pixel_lines(*m));
}

fn push_layout_lines(lines: &mut Vec<String>, m: &LayoutMetric)
    ensures
        final(lines).deep_view() == old(lines).deep_view() + layout_lines(*m),
{
    if m.score < ATTENTION_BELOW {
        let missing = count_kind(&m.diff_regions, LayoutDiffKind::MissingElement);
        let extra = count_kind(&m.diff_regions, LayoutDiffKind::ExtraElement);
        let shifted = count_kind(&m.diff_regions, LayoutDiffKind::PositionShift);
        push_counted(lines, missing, " element(s) missing from implementation");
        push_counted(lines, extra, " extra element(s) in implementation");
        push_counted(lines, shifted, " element(s) shifted from expected position");
    }
    assert(final(lines).deep_view() =~= old(lines).deep_view() + layout_lines(*m));
}

fn push_typography_lines(lines: &mut Vec<String>, m: &TypographyMetric)
    ensures
        final(lines).deep_view() == old(lines).deep_view() + typography_lines(*m),
{
    if m.score < ATTENTION_BELOW {
        let fonts = count_issue(&m.diffs, TypographyIssue::FontFamilyMismatch);
        let sizes = count_issue(&m.diffs, TypographyIssue::FontSizeDiff);
        push_counted(lines, fonts, " element(s) have mismatched font families");
        push_counted(lines, sizes, " element(s) have incorrect font sizes");
    }
    assert(final(lines).deep_view() =~= old(lines).deep_view() + typography_lines(*m));
}

fn push_color_lines(lines: &mut Vec<String>, m: &ColorMetric)
    ensures
        final(lines).deep_view() == old(lines).deep_view() + color_lines(*m),
{
    if m.score < ATTENTION_BELOW {
        push_counted(lines, m.diffs.len(), " color difference(s) detected in palette");
    }
    assert(final(lines).deep_view() =~= old(lines).deep_view() + color_lines(*m));
}

fn push_content_lines(lines: &mut Vec<String>, m: &ContentMetric)
    ensures
        final(lines).deep_view() == old(lines).deep_view() + content_lines(*m),
{
    if m.score < ATTENTION_BELOW {
        push_counted(lines, m.missing_text.len(), " text element(s) missing from implementation");
        push_counted(lines, m.extra_text.len(), " extra text element(s) in implementation");
    }
    assert(final(lines).deep_view() =~= old(lines).deep_view() + content_lines(*m));
}

fn headline_string(similarity: u32, threshold: u32) -> (head: String)
    ensures
        head@ == headline(similarity, threshold),
{
    let mut head = String::from_str(
        if similarity >= threshold {
            "Design parity check passed ("
        } else {
            "Design parity check failed ("
        },
    );
    push_percent(&mut head, similarity);
    head.append("% similarity, threshold: ");
    push_percent(&mut head, threshold);
    head.append("%)");
    assert(head@ =~= headline(similarity, threshold));
    head
}

/// Builds the summary of a comparison from the metric results, the combined
/// similarity and the threshold, both in millionths.
pub fn generate_summary(scores: &MetricScores, similarity: u32, threshold: u32) -> (r: Summary)
    ensures
        r.top_issues.deep_view() == summary_lines(*scores, similarity, threshold),
        r.top_issues.len() <= SUMMARY_BUDGET,
{
    let mut lines: Vec<String> = Vec::new();
    lines.push(headline_string(similarity, threshold));
    assert(lines.deep_view() =~= seq![headline(similarity, threshold)]);
    let ghost empty = Seq::<Seq<char>>::empty();
    let ghost l0 = lines.deep_view();
    if let Some(m) = &scores.pixel {
        push_pixel_lines(&mut lines, m);
    }
    let ghost l1 = lines.deep_view();
    assert(l1 =~= l0 + (match scores.pixel {
        Some(m) => pixel_lines(m),
        None => empty,
    }));
    if let Some(m) = &scores.layout {
        push_layout_lines(&mut lines, m);
    }
    let ghost l2 = lines.deep_view();
    assert(l2 =~= l1 + (match scores.layout {
        Some(m) => layout_lines(m),
        None => empty,
    }));
    if let Some(m) = &scores.typography {
        push_typography_lines(&mut lines, m);
    }
    let ghost l3 = lines.deep_view();
    assert(l3 =~= l2 + (match scores.typography {
        Some(m) => typography_lines(m),
        None => empty,
    }));
    if let Some(m) = &scores.color {
        push_color_lines(&mut lines, m);
    }
    let ghost l4 = lines.deep_view();
    assert(l4 =~= l3 + (match scores.color {
        Some(m) => color_lines(m),
        None => empty,
    }));
    if let Some(m) = &scores.content {
        push_content_lines(&mut lines, m);
    }
    assert(lines.deep_view() =~= l4 + (match scores.content {
        Some(m) => content_lines(m),
        None => empty,
    }));
    proof {
        lemma_summary_budget(*scores, similarity, threshold);
    }
    Summary { top_issues: lines }
}

/// No metric that is present scored under `ATTENTION_BELOW`.
pub open spec fn all_scored_well(scores: MetricScores) -> bool {
    &&& scores.pixel matches Some(m) ==> m.score >= ATTENTION_BELOW
    &&& scores.layout matches Some(m) ==> m.score >= ATTENTION_BELOW
    &&& scores.typography matches Some(m) ==> m.score >= ATTENTION_BELOW
    &&& scores.color matches Some(m) ==> m.score >= ATTENTION_BELOW
    &&& scores.content matches Some(m) ==> m.score >= ATTENTION_BELOW
}

/// Where no metric calls for attention the summary is the verdict alone,
/// whatever differences the metrics list.
pub proof fn law_good_scores_leave_the_verdict_alone(
    scores: MetricScores,
    similarity: u32,
    threshold: u32,
)
    requires
        all_scored_well(scores),
    ensures
        summary_lines(scores, similarity, threshold) == seq![headline(similarity, threshold)],
{
    assert(summary_lines(scores, similarity, threshold) =~= seq![headline(similarity, threshold)]);
}

/// Two summaries built from the same results, similarity and threshold read
/// the same, line for line.
pub proof fn law_summary_is_deterministic(
    scores: MetricScores,
    similarity: u32,
    threshold: u32,
    first: Summary,
    second: Summary,
)
    requires
        first.top_issues.deep_view() == summary_lines(scores, similarity, threshold),
        second.top_issues.deep_view() == summary_lines(scores, similarity, threshold),
    ensures
        first.top_issues.deep_view() == second.top_issues.deep_view(),
{
}

/// A summary never has more than `SUMMARY_BUDGET` lines.
pub proof fn lemma_summary_budget(scores: MetricScores, similarity: u32, threshold: u32)
    ensures
        summary_lines(scores, similarity, threshold).len() <= SUMMARY_BUDGET,
{
}

} // verus!
