//! Alignment of left edges into columns.
//!
//! The left edges of all rectangles that are wide enough are sorted and
//! swept once: an edge joins the column before it when it lies within the
//! tolerance of that column's mean, and opens a new column otherwise. An edge
//! is then aligned when some column's mean lies within one and a half
//! tolerances of it. Means are never rounded: a column is kept as the sum and
//! the number of its edges, and distances are compared after multiplying out.

use crate::decimal::decimal;
use crate::decimal::fixed_text;
use crate::decimal::push_decimal;
use crate::decimal::push_fixed;
use crate::geometry::coord_in_range;
use crate::geometry::BoundingBox;
use crate::geometry::Viewport;
use crate::geometry::COORD_LIMIT;
use crate::output::FindingSeverity;
use crate::output::QualityFinding;
use crate::output::QualityFindingModel;
use crate::output::QualityFindingType;
use crate::seqs::count_where;
use crate::seqs::lemma_count_bound;
use crate::seqs::lemma_count_step;
use crate::seqs::lemma_count_partition;
use crate::sorting::int_le;
use crate::sorting::is_sorted_by;
use crate::sorting::lemma_orders_are_total;
use crate::sorting::lemma_sorted_is_sorted;
use crate::sorting::lemma_sorted_members;
use crate::sorting::lemma_sorted_elements;
use crate::sorting::sort_numbers;
use crate::sorting::sorted_by;
use crate::types::view::NormalizedView;
use vstd::prelude::*;
use vstd::string::StringExecFns;

verus! {

/// The least width that a rectangle must have to count is never under this,
/// in millionths of a pixel.
pub const SPAN_MIN: i64 = 4_000_000;

/// The least width that a rectangle must have to count is never over this.
pub const SPAN_MAX: i64 = 20_000_000;

/// The tolerance is never under this, in millionths of a pixel.
pub const TOLERANCE_MIN: i64 = 4_000_000;

/// The tolerance is never over this.
pub const TOLERANCE_MAX: i64 = 24_000_000;

/// Fewer edges than this are not assessed.
pub const MIN_SAMPLES: usize = 3;

/// `v` moved into `lo..=hi`.
pub open spec fn clamp(v: int, lo: int, hi: int) -> int {
    if v < lo {
        lo
    } else if v > hi {
        hi
    } else {
        v
    }
}

/// One hundredth of the viewport's width, in millionths of a pixel.
pub open spec fn one_percent(viewport: Viewport) -> int {
    viewport.width as int * 10_000
}

/// The least width of a rectangle whose left edge counts.
pub open spec fn min_span(viewport: Viewport) -> int {
    clamp(one_percent(viewport), SPAN_MIN as int, SPAN_MAX as int)
}

/// The distance from a column's mean within which an edge joins it.
pub open spec fn tolerance(viewport: Viewport) -> int {
    clamp(one_percent(viewport), TOLERANCE_MIN as int, TOLERANCE_MAX as int)
}

/// The left edges of the rectangles that are at least `min_width` wide, in
/// the order of the rectangles.
pub open spec fn left_edges(boxes: Seq<BoundingBox>, min_width: int) -> Seq<i64>
    decreases boxes.len(),
{
    if boxes.len() == 0 {
        Seq::empty()
    } else {
        let rest = left_edges(boxes.drop_last(), min_width);
        if boxes.last().width >= min_width {
            rest.push(boxes.last().x)
        } else {
            rest
        }
    }
}

/// A column under construction: sum and number of its edges, and the first
/// and the last edge that joined.
#[derive(Clone, Copy, Debug)]
pub struct Cluster {
    pub sum: i128,
    pub count: usize,
    pub first: i64,
    pub last: i64,
}

/// What a `Cluster` holds, as unbounded numbers.
pub struct ClusterModel {
    pub sum: int,
    pub count: nat,
    pub first: int,
    pub last: int,
}

impl DeepView for Cluster {
    type V = ClusterModel;

    open spec fn deep_view(&self) -> ClusterModel {
        ClusterModel {
            sum: self.sum as int,
            count: self.count as nat,
            first: self.first as int,
            last: self.last as int,
        }
    }
}

/// The absolute value of `v`.
pub open spec fn abs(v: int) -> int {
    if v < 0 {
        -v
    } else {
        v
    }
}

/// `x` lies within `t` of the mean of `c`.
pub open spec fn joins(c: ClusterModel, x: int, t: int) -> bool {
    abs(x * c.count - c.sum) <= t * c.count
}

/// `x` lies within one and a half times `t` of the mean of `c`.
pub open spec fn near(c: ClusterModel, x: int, t: int) -> bool {
    2 * abs(x * c.count - c.sum) <= 3 * t * c.count
}

/// The column that holds `x` alone.
pub open spec fn single(x: int) -> ClusterModel {
    ClusterModel { sum: x, count: 1, first: x, last: x }
}

/// The column `c` after `x` has joined it.
pub open spec fn extended(c: ClusterModel, x: int) -> ClusterModel {
    ClusterModel { sum: c.sum + x, count: c.count + 1, first: c.first, last: x }
}

/// The columns after one more edge: it joins the last column or opens a new
/// one.
pub open spec fn cluster_step(cs: Seq<ClusterModel>, x: int, t: int) -> Seq<ClusterModel> {
    if cs.len() > 0 && joins(cs.last(), x, t) {
        cs.drop_last().push(extended(cs.last(), x))
    } else {
        cs.push(single(x))
    }
}

/// The columns that a sweep over `xs` with tolerance `t` builds.
pub open spec fn clusters_of(xs: Seq<i64>, t: int) -> Seq<ClusterModel>
    decreases xs.len(),
{
    if xs.len() == 0 {
        Seq::empty()
    } else {
        cluster_step(clusters_of(xs.drop_last(), t), xs.last() as int, t)
    }
}

/// Some column of `cs` has its mean within one and a half times `t` of `x`.
pub open spec fn is_aligned(cs: Seq<ClusterModel>, x: int, t: int) -> bool {
    exists|k: int| 0 <= k < cs.len() && near(#[trigger] cs[k], x, t)
}

/// The edge is aligned to some column of `cs`.
pub open spec fn aligned_to(cs: Seq<ClusterModel>, t: int) -> spec_fn(i64) -> bool {
    |x: i64| is_aligned(cs, x as int, t)
}

/// The mean of `a` is at most the mean of `b`.
pub open spec fn center_le(a: ClusterModel, b: ClusterModel) -> bool {
    a.sum * b.count <= b.sum * a.count
}

/// What the sweep found: how many edges there are, how many columns they
/// form, and how many of the edges are aligned.
pub struct AlignmentModel {
    pub total: nat,
    pub columns: nat,
    pub aligned: nat,
}

/// The alignment of the edges `xs`, given in any order, under tolerance `t`.
pub open spec fn measure(xs: Seq<i64>, t: int) -> AlignmentModel {
    let sorted = sorted_by(xs, int_le());
    let cs = clusters_of(sorted, t);
    AlignmentModel {
        total: xs.len(),
        columns: cs.len(),
        aligned: count_where(sorted, aligned_to(cs, t)),
    }
}

/// The share of aligned edges, in millionths.
pub open spec fn alignment_ratio(a: AlignmentModel) -> int
    recommends
        a.total > 0,
{
    (a.aligned as int * 1_000_000) / (a.total as int)
}

/// A warning when under three quarters of the edges are aligned and at least
/// two are not.
pub open spec fn alignment_severity(a: AlignmentModel) -> FindingSeverity {
    if alignment_ratio(a) < 750_000 && a.total - a.aligned >= 2 {
        FindingSeverity::Warning
    } else {
        FindingSeverity::Info
    }
}

/// What is said of the alignment: how many edges deviate, of how many, from
/// how many columns, and under which tolerance in whole pixels.
pub open spec fn alignment_message(a: AlignmentModel, t: int) -> Seq<char> {
    decimal((a.total - a.aligned) as nat) + " of "@ + decimal(a.total)
        + " elements deviate from "@ + decimal(a.columns) + " column(s) (tolerance ~"@
        + fixed_text(t as nat, 0) + "px)."@
}

/// The edges that the heuristic assesses for `view`.
pub open spec fn assessed_edges(view: NormalizedView, viewport: Viewport) -> Seq<i64> {
    left_edges(view.boxes(), min_span(viewport))
}

/// The alignment score for `view`, in millionths: none when there are fewer
/// than `MIN_SAMPLES` edges.
pub open spec fn alignment_score(view: NormalizedView, viewport: Viewport) -> Option<u32> {
    let xs = assessed_edges(view, viewport);
    if xs.len() < MIN_SAMPLES {
        None
    } else {
        Some(alignment_ratio(measure(xs, tolerance(viewport))) as u32)
    }
}

/// The finding that the heuristic reports for `view`.
pub open spec fn alignment_finding(view: NormalizedView, viewport: Viewport) -> QualityFindingModel {
    let xs = assessed_edges(view, viewport);
    if xs.len() < MIN_SAMPLES {
        QualityFindingModel {
            severity: FindingSeverity::Info,
            finding_type: QualityFindingType::AlignmentInconsistent,
            message: "Not enough elements to assess alignment (need 3+ with bounding boxes)."@,
        }
    } else {
        let a = measure(xs, tolerance(viewport));
        QualityFindingModel {
            severity: alignment_severity(a),
            finding_type: QualityFindingType::AlignmentInconsistent,
            message: alignment_message(a, tolerance(viewport)),
        }
    }
}

/// Every number of `xs` lies within the coordinate range.
pub open spec fn all_in_range(xs: Seq<i64>) -> bool {
    forall|i: int| 0 <= i < xs.len() ==> coord_in_range(#[trigger] xs[i] as int)
}

/// The sum of a column stays within what its number of edges allows.
pub open spec fn bounded(c: ClusterModel) -> bool {
    &&& c.count >= 1
    &&& -COORD_LIMIT * c.count <= c.sum <= COORD_LIMIT * c.count
    &&& coord_in_range(c.first)
    &&& coord_in_range(c.last)
}

/// The columns of a sweep over edges in range are bounded, and there are no
/// more columns, and no more edges in a column, than there are edges.
pub proof fn lemma_clusters_bounded(xs: Seq<i64>, t: int)
    requires
        all_in_range(xs),
    ensures
        forall|k: int|
            0 <= k < clusters_of(xs, t).len() ==> bounded(#[trigger] clusters_of(xs, t)[k])
                && clusters_of(xs, t)[k].count <= xs.len(),
        clusters_of(xs, t).len() <= xs.len(),
    decreases xs.len(),
{
    if xs.len() > 0 {
        let rest = xs.drop_last();
        assert forall|i: int| 0 <= i < rest.len() implies coord_in_range(
            #[trigger] rest[i] as int,
        ) by {
            assert(rest[i] == xs[i]);
        }
        lemma_clusters_bounded(rest, t);
        let cs = clusters_of(rest, t);
        let x = xs.last() as int;
        assert(coord_in_range(xs[xs.len() - 1] as int));
        let out = clusters_of(xs, t);
        assert forall|k: int| 0 <= k < out.len() implies bounded(#[trigger] out[k]) && out[k].count
            <= xs.len() by {
            if cs.len() > 0 && joins(cs.last(), x, t) {
                if k < cs.len() - 1 {
                    assert(out[k] == cs[k]);
                } else {
                    let c = cs[cs.len() - 1];
                    assert(bounded(c));
                    assert(COORD_LIMIT * (c.count + 1) == COORD_LIMIT * c.count + COORD_LIMIT)
                        by (nonlinear_arith);
                }
            } else {
                if k < cs.len() {
                    assert(out[k] == cs[k]);
                } else {
                    assert(COORD_LIMIT * 1 == COORD_LIMIT) by (nonlinear_arith);
                }
            }
        }
    }
}

/// The least width of a rectangle whose left edge counts.
pub fn min_span_for(viewport: &Viewport) -> (r: i64)
    ensures
        r == min_span(*viewport),
        SPAN_MIN <= r <= SPAN_MAX,
{
    let one: i64 = viewport.width as i64 * 10_000;
    if one < SPAN_MIN {
        SPAN_MIN
    } else if one > SPAN_MAX {
        SPAN_MAX
    } else {
        one
    }
}

/// The distance from a column's mean within which an edge joins it.
pub fn tolerance_for(viewport: &Viewport) -> (r: i64)
    ensures
        r == tolerance(*viewport),
        TOLERANCE_MIN <= r <= TOLERANCE_MAX,
{
    let one: i64 = viewport.width as i64 * 10_000;
    if one < TOLERANCE_MIN {
        TOLERANCE_MIN
    } else if one > TOLERANCE_MAX {
        TOLERANCE_MAX
    } else {
        one
    }
}

/// The left edges of the rectangles that are at least `min_width` wide.
pub fn collect_left_edges(boxes: &Vec<BoundingBox>, min_width: i64) -> (out: Vec<i64>)
    ensures
        out@ == left_edges(boxes@, min_width as int),
        (forall|i: int| 0 <= i < boxes.len() ==> (#[trigger] boxes@[i]).in_range())
            ==> all_in_range(out@),
{
    let mut out: Vec<i64> = Vec::new();
    let mut i: usize = 0;
    while i < boxes.len()
        invariant
            i <= boxes.len(),
            out@ == left_edges(boxes@.take(i as int), min_width as int),
            (forall|k: int| 0 <= k < boxes.len() ==> (#[trigger] boxes@[k]).in_range())
                ==> all_in_range(out@),
        decreases boxes.len() - i,
    {
        proof {
            assert(boxes@.take(i + 1).drop_last() =~= boxes@.take(i as int));
            assert(boxes@[i as int].in_range() ==> coord_in_range(boxes@[i as int].x as int));
        }
        if boxes[i].width >= min_width {
            out.push(boxes[i].x);
        }
        i = i + 1;
    }
    assert(boxes@.take(boxes.len() as int) =~= boxes@);
    out
}

proof fn lemma_product_range(x: int, c: int, limit: int, most: int)
    requires
        -limit <= x <= limit,
        0 <= c <= most,
    ensures
        -limit * most <= x * c <= limit * most,
{
    assert(-limit * most <= x * c <= limit * most) by (nonlinear_arith)
        requires
            -limit <= x <= limit,
            0 <= c <= most,
    ;
}

proof fn lemma_cluster_in_machine_range(c: ClusterModel, x: int, t: int)
    requires
        bounded(c),
        c.count <= usize::MAX,
        coord_in_range(x),
        0 <= t <= TOLERANCE_MAX,
    ensures
        -40_000_000_000_000_000_000_000_000_000_000_000_000 <= x * c.count
            <= 40_000_000_000_000_000_000_000_000_000_000_000_000,
        -40_000_000_000_000_000_000_000_000_000_000_000_000 <= c.sum
            <= 40_000_000_000_000_000_000_000_000_000_000_000_000,
        0 <= t * c.count <= 1_000_000_000_000_000_000_000_000_000_000,
{
    let most: int = 0x1_0000_0000_0000_0000;
    lemma_product_range(x, c.count as int, COORD_LIMIT as int, most);
    lemma_product_range(COORD_LIMIT as int, c.count as int, COORD_LIMIT as int, most);
    lemma_product_range(t, c.count as int, TOLERANCE_MAX as int, most);
    assert(COORD_LIMIT * most <= 40_000_000_000_000_000_000_000_000_000_000_000_000) by (nonlinear_arith)
        requires
            most == 0x1_0000_0000_0000_0000,
    ;
    assert(TOLERANCE_MAX * most <= 1_000_000_000_000_000_000_000_000_000_000) by (nonlinear_arith)
        requires
            most == 0x1_0000_0000_0000_0000,
    ;
    assert(0 <= t * c.count) by (nonlinear_arith)
        requires
            0 <= t,
            0 <= c.count,
    ;
}

fn cluster_joins(c: &Cluster, x: i64, t: i64) -> (r: bool)
    requires
        bounded(c.deep_view()),
        coord_in_range(x as int),
        0 <= t <= TOLERANCE_MAX,
    ensures
        r == joins(c.deep_view(), x as int, t as int),
{
    proof {
        lemma_cluster_in_machine_range(c.deep_view(), x as int, t as int);
    }
    let d: i128 = x as i128 * c.count as i128 - c.sum;
    let dist: i128 = if d < 0 {
        -d
    } else {
        d
    };
    dist <= t as i128 * c.count as i128
}

fn cluster_is_near(c: &Cluster, x: i64, t: i64) -> (r: bool)
    requires
        bounded(c.deep_view()),
        coord_in_range(x as int),
        0 <= t <= TOLERANCE_MAX,
    ensures
        r == near(c.deep_view(), x as int, t as int),
{
    proof {
        lemma_cluster_in_machine_range(c.deep_view(), x as int, t as int);
        assert(3 * t * c.count == 3 * (t * c.count)) by (nonlinear_arith);
    }
    let d: i128 = x as i128 * c.count as i128 - c.sum;
    let dist: i128 = if d < 0 {
        -d
    } else {
        d
    };
    2 * dist <= 3 * (t as i128 * c.count as i128)
}

/// Sweeps over `xs` once and returns the columns that form under tolerance `t`.
pub fn cluster_positions(xs: &Vec<i64>, t: i64) -> (out: Vec<Cluster>)
    requires
        all_in_range(xs@),
        0 <= t <= TOLERANCE_MAX,
    ensures
        out.deep_view() == clusters_of(xs@, t as int),
{
    let mut out: Vec<Cluster> = Vec::new();
    let mut i: usize = 0;
    assert(out.deep_view() =~= clusters_of(xs@.take(0), t as int));
    while i < xs.len()
        invariant
            i <= xs.len(),
            all_in_range(xs@),
            0 <= t <= TOLERANCE_MAX,
            out.deep_view() == clusters_of(xs@.take(i as int), t as int),
        decreases xs.len() - i,
    {
        let x = xs[i];
        let ghost before = out.deep_view();
        proof {
            assert(xs@.take(i + 1).drop_last() =~= xs@.take(i as int));
            assert forall|k: int| 0 <= k < i implies coord_in_range(
                #[trigger] xs@.take(i as int)[k] as int,
            ) by {
                assert(xs@.take(i as int)[k] == xs@[k]);
            }
            lemma_clusters_bounded(xs@.take(i as int), t as int);
            assert(coord_in_range(xs@[i as int] as int));
        }
        let n = out.len();
        if n > 0 {
            let c = out[n - 1];
            assert(c.deep_view() == before[n - 1]);
            if cluster_joins(&c, x, t) {
                proof {
                    assert(COORD_LIMIT * (c.count + 1) == COORD_LIMIT * c.count + COORD_LIMIT)
                        by (nonlinear_arith);
                    lemma_cluster_in_machine_range(c.deep_view(), x as int, t as int);
                }
                out.pop();
                out.push(Cluster { sum: c.sum + x as i128, count: c.count + 1, first: c.first, last: x });
                assert(out.deep_view() =~= cluster_step(before, x as int, t as int));
            } else {
                out.push(Cluster { sum: x as i128, count: 1, first: x, last: x });
                assert(out.deep_view() =~= cluster_step(before, x as int, t as int));
            }
        } else {
            out.push(Cluster { sum: x as i128, count: 1, first: x, last: x });
            assert(out.deep_view() =~= cluster_step(before, x as int, t as int));
        }
        i = i + 1;
    }
    assert(xs@.take(xs.len() as int) =~= xs@);
    out
}

fn near_some(clusters: &Vec<Cluster>, x: i64, t: i64) -> (r: bool)
    requires
        forall|k: int| 0 <= k < clusters.len() ==> bounded(#[trigger] clusters.deep_view()[k]),
        coord_in_range(x as int),
        0 <= t <= TOLERANCE_MAX,
    ensures
        r == is_aligned(clusters.deep_view(), x as int, t as int),
{
    let ghost cs = clusters.deep_view();
    let mut k: usize = 0;
    while k < clusters.len()
        invariant
            k <= clusters.len(),
            cs == clusters.deep_view(),
            forall|j: int| 0 <= j < clusters.len() ==> bounded(#[trigger] cs[j]),
            coord_in_range(x as int),
            0 <= t <= TOLERANCE_MAX,
            forall|j: int| 0 <= j < k ==> !near(#[trigger] cs[j], x as int, t as int),
        decreases clusters.len() - k,
    {
        assert(clusters[k as int].deep_view() == cs[k as int]);
        if cluster_is_near(&clusters[k], x, t) {
            return true;
        }
        k = k + 1;
    }
    false
}

fn count_aligned(clusters: &Vec<Cluster>, xs: &Vec<i64>, t: i64) -> (n: usize)
    requires
        forall|k: int| 0 <= k < clusters.len() ==> bounded(#[trigger] clusters.deep_view()[k]),
        all_in_range(xs@),
        0 <= t <= TOLERANCE_MAX,
    ensures
        n == count_where(xs@, aligned_to(clusters.deep_view(), t as int)),
        n <= xs.len(),
{
    let ghost p = aligned_to(clusters.deep_view(), t as int);
    let mut n: usize = 0;
    let mut i: usize = 0;
    while i < xs.len()
        invariant
            i <= xs.len(),
            forall|k: int| 0 <= k < clusters.len() ==> bounded(#[trigger] clusters.deep_view()[k]),
            all_in_range(xs@),
            0 <= t <= TOLERANCE_MAX,
            p == aligned_to(clusters.deep_view(), t as int),
            n == count_where(xs@.take(i as int), p),
            n <= i,
        decreases xs.len() - i,
    {
        proof {
            lemma_count_step(xs@, p, i as int);
            assert(coord_in_range(xs@[i as int] as int));
        }
        if near_some(clusters, xs[i], t) {
            n = n + 1;
        }
        i = i + 1;
    }
    assert(xs@.take(xs.len() as int) =~= xs@);
    n
}

fn alignment_text(outliers: usize, total: usize, columns: usize, t: i64) -> (text: String)
    requires
        0 <= t,
    ensures
        text@ == decimal(outliers as nat) + " of "@ + decimal(total as nat)
            + " elements deviate from "@ + decimal(columns as nat) + " column(s) (tolerance ~"@
            + fixed_text(t as nat, 0) + "px)."@,
{
    let mut text = String::new();
    push_decimal(&mut text, outliers as u128);
    text.append(" of ");
    push_decimal(&mut text, total as u128);
    text.append(" elements deviate from ");
    push_decimal(&mut text, columns as u128);
    text.append(" column(s) (tolerance ~");
    push_fixed(&mut text, t as u128, 0);
    text.append("px).");
    assert(text@ =~= decimal(outliers as nat) + " of "@ + decimal(total as nat)
        + " elements deviate from "@ + decimal(columns as nat) + " column(s) (tolerance ~"@
        + fixed_text(t as nat, 0) + "px)."@);
    text
}

/// Assesses how well the left edges of the view's rectangles line up in
/// columns. Returns the share of aligned edges in millionths, or none where
/// fewer than `MIN_SAMPLES` edges can be assessed, and the finding to report.
pub fn alignment_heuristic(view: &NormalizedView, viewport: &Viewport) -> (r: (
    Option<u32>,
    QualityFinding,
))
    requires
        view.coordinates_in_range(),
    ensures
        r.0 == alignment_score(*view, *viewport),
        r.1.deep_view() == alignment_finding(*view, *viewport),
        r.0 is Some ==> r.0->0 <= 1_000_000,
{
    let boxes = view.collect_boxes();
    let edges = collect_left_edges(&boxes, min_span_for(viewport));
    if edges.len() < MIN_SAMPLES {
        return (
            None,
            QualityFinding {
                severity: FindingSeverity::Info,
                finding_type: QualityFindingType::AlignmentInconsistent,
                message: String::from_str(
                    "Not enough elements to assess alignment (need 3+ with bounding boxes).",
                ),
            },
        );
    }
    let t = tolerance_for(viewport);
    let sorted = sort_numbers(&edges);
    proof {
        lemma_sorted_members(edges@, int_le());
        assert forall|i: int| 0 <= i < sorted@.len() implies coord_in_range(
            #[trigger] sorted@[i] as int,
        ) by {
            let k = choose|k: int| 0 <= k < edges@.len() && edges@[k] == sorted@[i];
            assert(coord_in_range(edges@[k] as int));
        }
        lemma_clusters_bounded(sorted@, t as int);
    }
    let clusters = cluster_positions(&sorted, t);
    let aligned = count_aligned(&clusters, &sorted, t);
    let total = edges.len();
    let outliers = total - aligned;
    let ghost a = measure(edges@, t as int);
    assert(a.total == total && a.aligned == aligned && a.columns == clusters.len());
    assert(aligned as int * 1_000_000 / total as int <= 1_000_000) by (nonlinear_arith)
        requires
            0 <= aligned <= total,
            total > 0,
    ;
    assert(0 <= aligned as int * 1_000_000 / total as int) by (nonlinear_arith)
        requires
            0 <= aligned,
            total > 0,
    ;
    let ratio: u32 = (aligned as u128 * 1_000_000 / total as u128) as u32;
    let severity = if ratio < 750_000 && outliers >= 2 {
        FindingSeverity::Warning
    } else {
        FindingSeverity::Info
    };
    let message = alignment_text(outliers, total, clusters.len(), t);
    (
        Some(ratio),
        QualityFinding { severity, finding_type: QualityFindingType::AlignmentInconsistent, message },
    )
}

/// Every column has at least one edge, its sum lies between what its first
/// and its last edge would give alone, and no column starts before the one
/// in front of it ends.
pub open spec fn spans_ordered(cs: Seq<ClusterModel>) -> bool {
    &&& forall|k: int|
        0 <= k < cs.len() ==> {
            &&& (#[trigger] cs[k]).count >= 1
            &&& cs[k].first <= cs[k].last
            &&& cs[k].first * cs[k].count <= cs[k].sum <= cs[k].last * cs[k].count
        }
    &&& forall|k: int| 0 <= k < cs.len() - 1 ==> (#[trigger] cs[k]).last <= cs[k + 1].first
}

/// The columns of a sweep over ascending edges lie one behind the other, and
/// the last one ends at the last edge.
pub proof fn lemma_spans_ordered(xs: Seq<i64>, t: int)
    requires
        is_sorted_by(xs, int_le()),
    ensures
        spans_ordered(clusters_of(xs, t)),
        xs.len() > 0 ==> clusters_of(xs, t).len() > 0 && clusters_of(xs, t).last().last
            == xs.last(),
    decreases xs.len(),
{
    if xs.len() > 0 {
        let rest = xs.drop_last();
        assert forall|i: int, j: int| 0 <= i < j < rest.len() implies int_le()(
            #[trigger] rest[i],
            #[trigger] rest[j],
        ) by {
            assert(int_le()(xs[i], xs[j]));
        }
        lemma_spans_ordered(rest, t);
        let cs = clusters_of(rest, t);
        let x = xs.last() as int;
        let out = clusters_of(xs, t);
        if rest.len() > 0 {
            assert(int_le()(xs[rest.len() - 1], xs[xs.len() - 1]));
            assert(cs.last().last <= x);
        }
        if cs.len() > 0 && joins(cs.last(), x, t) {
            let c = cs.last();
            let e = extended(c, x);
            assert(c == cs[cs.len() - 1]);
            assert(e.first * e.count <= e.sum <= e.last * e.count) by (nonlinear_arith)
                requires
                    c.first * c.count <= c.sum <= c.last * c.count,
                    c.first <= c.last <= x,
                    c.count >= 1,
                    e.first == c.first,
                    e.last == x,
                    e.sum == c.sum + x,
                    e.count == c.count + 1,
            ;
            assert forall|k: int| 0 <= k < out.len() implies {
                &&& (#[trigger] out[k]).count >= 1
                &&& out[k].first <= out[k].last
                &&& out[k].first * out[k].count <= out[k].sum <= out[k].last * out[k].count
            } by {
                if k < cs.len() - 1 {
                    assert(out[k] == cs[k]);
                }
            }
            assert forall|k: int| 0 <= k < out.len() - 1 implies (#[trigger] out[k]).last
                <= out[k + 1].first by {
                assert(out[k] == cs[k]);
                assert(cs[k].last <= cs[k + 1].first);
            }
        } else {
            assert(x * 1 == x) by (nonlinear_arith);
            assert forall|k: int| 0 <= k < out.len() implies {
                &&& (#[trigger] out[k]).count >= 1
                &&& out[k].first <= out[k].last
                &&& out[k].first * out[k].count <= out[k].sum <= out[k].last * out[k].count
            } by {
                if k < cs.len() {
                    assert(out[k] == cs[k]);
                }
            }
            assert forall|k: int| 0 <= k < out.len() - 1 implies (#[trigger] out[k]).last
                <= out[k + 1].first by {
                assert(out[k] == cs[k]);
                if k < cs.len() - 1 {
                    assert(cs[k].last <= cs[k + 1].first);
                }
            }
        }
    }
}

proof fn lemma_span_chain(cs: Seq<ClusterModel>, i: int, j: int)
    requires
        spans_ordered(cs),
        0 <= i < j < cs.len(),
    ensures
        cs[i].last <= cs[j].first,
    decreases j - i,
{
    if i + 1 < j {
        lemma_span_chain(cs, i, j - 1);
        assert(cs[j - 1].first <= cs[j - 1].last);
        assert(cs[j - 1].last <= cs[j].first);
    }
}

/// The columns of a sweep over ascending edges have ascending means.
pub proof fn lemma_centers_ascending(xs: Seq<i64>, t: int)
    requires
        is_sorted_by(xs, int_le()),
    ensures
        forall|i: int, j: int|
            0 <= i < j < clusters_of(xs, t).len() ==> center_le(
                #[trigger] clusters_of(xs, t)[i],
                #[trigger] clusters_of(xs, t)[j],
            ),
{
    let cs = clusters_of(xs, t);
    lemma_spans_ordered(xs, t);
    assert forall|i: int, j: int| 0 <= i < j < cs.len() implies center_le(
        #[trigger] cs[i],
        #[trigger] cs[j],
    ) by {
        lemma_span_chain(cs, i, j);
        let a = cs[i];
        let b = cs[j];
        assert(a.sum * b.count <= b.sum * a.count) by (nonlinear_arith)
            requires
                a.count >= 1,
                b.count >= 1,
                a.sum <= a.last * a.count,
                b.first * b.count <= b.sum,
                a.last <= b.first,
        ;
    }
}

/// The mean of `a` is less than the mean of `b`.
pub open spec fn center_lt(a: ClusterModel, b: ClusterModel) -> bool {
    a.sum * b.count < b.sum * a.count
}

/// The mean of each column lies before the first edge of the next.
pub open spec fn means_apart(cs: Seq<ClusterModel>) -> bool {
    forall|k: int| 0 <= k < cs.len() - 1 ==> (#[trigger] cs[k]).sum < cs[k + 1].first * cs[k].count
}

proof fn lemma_means_apart(xs: Seq<i64>, t: int)
    requires
        is_sorted_by(xs, int_le()),
        t >= 0,
    ensures
        means_apart(clusters_of(xs, t)),
    decreases xs.len(),
{
    if xs.len() > 0 {
        let rest = xs.drop_last();
        assert forall|i: int, j: int| 0 <= i < j < rest.len() implies int_le()(
            #[trigger] rest[i],
            #[trigger] rest[j],
        ) by {
            assert(int_le()(xs[i], xs[j]));
        }
        lemma_means_apart(rest, t);
        lemma_spans_ordered(rest, t);
        let cs = clusters_of(rest, t);
        let x = xs.last() as int;
        let out = clusters_of(xs, t);
        if rest.len() > 0 {
            assert(int_le()(xs[rest.len() - 1], xs[xs.len() - 1]));
        }
        if cs.len() > 0 && joins(cs.last(), x, t) {
            assert forall|k: int| 0 <= k < out.len() - 1 implies (#[trigger] out[k]).sum < out[k
                + 1].first * out[k].count by {
                assert(out[k] == cs[k]);
                assert(cs[k].sum < cs[k + 1].first * cs[k].count);
            }
        } else {
            assert forall|k: int| 0 <= k < out.len() - 1 implies (#[trigger] out[k]).sum < out[k
                + 1].first * out[k].count by {
                assert(out[k] == cs[k]);
                if k < cs.len() - 1 {
                    assert(cs[k].sum < cs[k + 1].first * cs[k].count);
                } else {
                    let c = cs[k];
                    assert(c == cs.last());
                    assert(c.sum < x * c.count) by (nonlinear_arith)
                        requires
                            c.count >= 1,
                            c.sum <= c.last * c.count,
                            c.last <= x,
                            t >= 0,
                            abs(x * c.count - c.sum) > t * c.count,
                    ;
                }
            }
        }
    }
}

/// Under a tolerance that is not negative, the columns of the heuristic have
/// strictly ascending means: no two columns share a mean.
pub proof fn law_column_means_strictly_ascend(xs: Seq<i64>, t: int)
    requires
        t >= 0,
    ensures
        forall|i: int, j: int|
            0 <= i < j < clusters_of(sorted_by(xs, int_le()), t).len() ==> center_lt(
                #[trigger] clusters_of(sorted_by(xs, int_le()), t)[i],
                #[trigger] clusters_of(sorted_by(xs, int_le()), t)[j],
            ),
{
    let sorted = sorted_by(xs, int_le());
    let cs = clusters_of(sorted, t);
    lemma_orders_are_total();
    lemma_sorted_is_sorted(xs, int_le());
    lemma_spans_ordered(sorted, t);
    lemma_means_apart(sorted, t);
    assert forall|i: int, j: int| 0 <= i < j < cs.len() implies center_lt(
        #[trigger] cs[i],
        #[trigger] cs[j],
    ) by {
        let a = cs[i];
        let b = cs[j];
        let next = cs[i + 1];
        if i + 1 < j {
            lemma_span_chain(cs, i + 1, j);
            assert(next.first <= next.last);
        }
        assert(a.sum * b.count < b.sum * a.count) by (nonlinear_arith)
            requires
                a.count >= 1,
                b.count >= 1,
                a.sum < next.first * a.count,
                next.first <= b.first,
                b.first * b.count <= b.sum,
        ;
    }
}

/// Whatever the edges and the tolerance: the columns that the heuristic forms
/// have ascending means, and every edge is either aligned to some column or
/// counted as deviating.
pub proof fn law_columns_ascending_and_edges_accounted(xs: Seq<i64>, t: int)
    ensures
        forall|i: int, j: int|
            0 <= i < j < clusters_of(sorted_by(xs, int_le()), t).len() ==> center_le(
                #[trigger] clusters_of(sorted_by(xs, int_le()), t)[i],
                #[trigger] clusters_of(sorted_by(xs, int_le()), t)[j],
            ),
        measure(xs, t).aligned <= measure(xs, t).total,
        measure(xs, t).total - measure(xs, t).aligned == count_where(
            sorted_by(xs, int_le()),
            |x: i64| !is_aligned(clusters_of(sorted_by(xs, int_le()), t), x as int, t),
        ),
{
    let sorted = sorted_by(xs, int_le());
    let cs = clusters_of(sorted, t);
    lemma_orders_are_total();
    lemma_sorted_is_sorted(xs, int_le());
    lemma_centers_ascending(sorted, t);
    lemma_sorted_elements(xs, int_le());
    let p = aligned_to(cs, t);
    lemma_count_bound(sorted, p);
    lemma_count_partition(sorted, p);
    assert((|x: i64| !p(x)) =~= (|x: i64| !is_aligned(cs, x as int, t)));
}

} // verus!
