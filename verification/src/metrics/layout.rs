//! The layout metric: which elements of the reference the implementation
//! lacks, adds, moves or resizes.
//!
//! An element of the reference without a partner is missing, an element of
//! the implementation without one is extra. A pair whose centers lie more
//! than a hundredth of the raster apart has shifted, and a pair whose width
//! or height differs by more than a tenth of the reference's has changed
//! size. A missing or an extra element weighs one, a shift or a change of
//! size one half. The score is one less the weight of all differences over
//! the larger number of elements, and never under nothing.

use crate::geometry::BoundingBox;
use crate::metrics::matching::collect_elements;
use crate::metrics::matching::elements_in_range;
use crate::metrics::matching::indices;
use crate::metrics::matching::most;
use crate::metrics::matching::pair_elements;
use crate::metrics::matching::pairing_of;
use crate::metrics::matching::taken;
use crate::metrics::matching::view_elements;
use crate::metrics::matching::Element;
use crate::metrics::matching::ElementModel;
use crate::types::metric_results::LayoutDiffKind;
use crate::types::metric_results::LayoutDiffRegion;
use crate::types::metric_results::LayoutDiffRegionModel;
use crate::types::metric_results::LayoutMetric;
use crate::types::metric_results::SCORE_ONE;
use crate::types::view::NormalizedView;
use vstd::prelude::*;

verus! {

/// A hundredth of the raster, doubled and squared: what the doubled distance
/// of two centers, squared, must exceed for a shift.
pub const SHIFT_LIMIT: i128 = 400_000_000;

/// Twice the distance between the centers of two rectangles, squared.
pub open spec fn doubled_distance_squared(a: BoundingBox, b: BoundingBox) -> int {
    let dx = (2 * b.x + b.width) - (2 * a.x + a.width);
    let dy = (2 * b.y + b.height) - (2 * a.y + a.height);
    dx * dx + dy * dy
}

/// The centers lie more than a hundredth of the raster apart.
pub open spec fn has_shifted(a: BoundingBox, b: BoundingBox) -> bool {
    doubled_distance_squared(a, b) > SHIFT_LIMIT
}

/// The absolute value of `v`.
pub open spec fn magnitude(v: int) -> int {
    if v < 0 {
        -v
    } else {
        v
    }
}

/// An extent differs from that of the reference by more than a tenth of it.
pub open spec fn extent_changed(reference: i64, other: i64) -> bool {
    10 * magnitude(other - reference) > most(0, reference as int)
}

/// Width or height has changed by more than a tenth.
pub open spec fn has_resized(a: BoundingBox, b: BoundingBox) -> bool {
    extent_changed(a.width, b.width) || extent_changed(a.height, b.height)
}

/// The region that reports a difference of `kind` at the element `e`.
pub open spec fn region_at(kind: LayoutDiffKind, e: ElementModel) -> LayoutDiffRegionModel {
    LayoutDiffRegionModel {
        x: e.bounding_box.x,
        y: e.bounding_box.y,
        width: e.bounding_box.width,
        height: e.bounding_box.height,
        kind,
        element_type: Some(e.kind),
        label: Some(e.id),
    }
}

/// The region where `present`, nothing otherwise.
pub open spec fn region_if(present: bool, region: LayoutDiffRegionModel) -> Seq<LayoutDiffRegionModel> {
    if present {
        seq![region]
    } else {
        Seq::empty()
    }
}

/// What is reported for one element of the reference: that it is missing,
/// or how its partner differs from it.
pub open spec fn regions_for(r: ElementModel, partner: Option<int>, others: Seq<ElementModel>) -> Seq<
    LayoutDiffRegionModel,
> {
    match partner {
        None => seq![region_at(LayoutDiffKind::MissingElement, r)],
        Some(j) => region_if(
            has_shifted(r.bounding_box, others[j].bounding_box),
            region_at(LayoutDiffKind::PositionShift, r),
        ) + region_if(
            has_resized(r.bounding_box, others[j].bounding_box),
            region_at(LayoutDiffKind::SizeChange, r),
        ),
    }
}

/// What is reported for the first `n` elements of the reference.
pub open spec fn reference_regions(
    refs: Seq<ElementModel>,
    others: Seq<ElementModel>,
    pairing: Seq<Option<int>>,
    n: nat,
) -> Seq<LayoutDiffRegionModel>
    decreases n,
{
    if n == 0 {
        Seq::empty()
    } else {
        reference_regions(refs, others, pairing, (n - 1) as nat) + regions_for(
            refs[n - 1],
            pairing[n - 1],
            others,
        )
    }
}

/// What is reported for the first `n` elements of the implementation: each
/// one that no element of the reference took is extra.
pub open spec fn extra_regions(others: Seq<ElementModel>, used: Set<int>, n: nat) -> Seq<
    LayoutDiffRegionModel,
>
    decreases n,
{
    if n == 0 {
        Seq::empty()
    } else {
        extra_regions(others, used, (n - 1) as nat) + region_if(
            !used.contains(n - 1),
            region_at(LayoutDiffKind::ExtraElement, others[n - 1]),
        )
    }
}

/// All differences between the two sides: those of the reference's elements
/// in their order, then the extra elements in theirs.
pub open spec fn layout_regions(refs: Seq<ElementModel>, others: Seq<ElementModel>) -> Seq<
    LayoutDiffRegionModel,
> {
    let pairing = pairing_of(refs, others);
    reference_regions(refs, others, pairing, refs.len()) + extra_regions(
        others,
        taken(pairing),
        others.len(),
    )
}

/// The weight of a difference, in halves.
pub open spec fn weight_of(kind: LayoutDiffKind) -> nat {
    match kind {
        LayoutDiffKind::MissingElement => 2,
        LayoutDiffKind::ExtraElement => 2,
        LayoutDiffKind::PositionShift => 1,
        LayoutDiffKind::SizeChange => 1,
    }
}

/// The weight of all differences, in halves.
pub open spec fn total_weight(regions: Seq<LayoutDiffRegionModel>) -> nat
    decreases regions.len(),
{
    if regions.len() == 0 {
        0
    } else {
        total_weight(regions.drop_last()) + weight_of(regions.last().kind)
    }
}

/// The score for differences of the given weight among `elements` elements,
/// in millionths; one whole where there are no elements.
pub open spec fn layout_score(halves: nat, elements: nat) -> int {
    if elements == 0 {
        SCORE_ONE as int
    } else {
        most(0, 1_000_000 - (halves as int * 500_000) / (elements as int))
    }
}

/// The weight of two lists of differences is the sum of their weights.
pub proof fn lemma_total_weight_concat(a: Seq<LayoutDiffRegionModel>, b: Seq<LayoutDiffRegionModel>)
    ensures
        total_weight(a + b) == total_weight(a) + total_weight(b),
    decreases b.len(),
{
    if b.len() == 0 {
        assert(a + b =~= a);
    } else {
        lemma_total_weight_concat(a, b.drop_last());
        assert((a + b).drop_last() =~= a + b.drop_last());
        assert((a + b).last() == b.last());
    }
}

fn region_of(kind: LayoutDiffKind, e: &Element) -> (r: LayoutDiffRegion)
    ensures
        r.deep_view() == region_at(kind, e.deep_view()),
{
    LayoutDiffRegion {
        x: e.bounding_box.x,
        y: e.bounding_box.y,
        width: e.bounding_box.width,
        height: e.bounding_box.height,
        kind,
        element_type: Some(e.kind.clone()),
        label: Some(e.id.clone()),
    }
}

/// Whether the centers of two rectangles lie more than a hundredth of the
/// raster apart.
pub fn boxes_shifted(a: &BoundingBox, b: &BoundingBox) -> (r: bool)
    requires
        a.in_range(),
        b.in_range(),
    ensures
        r == has_shifted(*a, *b),
{
    let dx: i128 = (2 * b.x as i128 + b.width as i128) - (2 * a.x as i128 + a.width as i128);
    let dy: i128 = (2 * b.y as i128 + b.height as i128) - (2 * a.y as i128 + a.height as i128);
    proof {
        let limit: int = 6_000_000_000_000_000_000;
        assert(forall|p: int|
            -limit <= p <= limit ==> 0 <= #[trigger] (p * p) <= limit * limit) by (nonlinear_arith);
        assert(limit * limit == 36_000_000_000_000_000_000_000_000_000_000_000_000) by (nonlinear_arith)
            requires
                limit == 6_000_000_000_000_000_000,
        ;
        assert(0 <= dx * dx <= limit * limit);
        assert(0 <= dy * dy <= limit * limit);
    }
    dx * dx + dy * dy > SHIFT_LIMIT
}

fn extent_differs(reference: i64, other: i64) -> (r: bool)
    ensures
        r == extent_changed(reference, other),
{
    let d: i128 = other as i128 - reference as i128;
    let m: i128 = if d < 0 {
        -d
    } else {
        d
    };
    let base: i128 = if reference > 0 {
        reference as i128
    } else {
        0
    };
    10 * m > base
}

/// Whether width or height of `b` differs from that of `a` by more than a
/// tenth of `a`'s.
pub fn boxes_resized(a: &BoundingBox, b: &BoundingBox) -> (r: bool)
    ensures
        r == has_resized(*a, *b),
{
    extent_differs(a.width, b.width) || extent_differs(a.height, b.height)
}

/// Compares the elements of the two sides.
pub fn compare_layout(refs: &Vec<Element>, others: &Vec<Element>) -> (m: LayoutMetric)
    requires
        elements_in_range(refs.deep_view()),
        elements_in_range(others.deep_view()),
    ensures
        m.diff_regions.deep_view() == layout_regions(refs.deep_view(), others.deep_view()),
        m.score == layout_score(
            total_weight(layout_regions(refs.deep_view(), others.deep_view())),
            most(refs.len() as int, others.len() as int) as nat,
        ),
        m.score <= SCORE_ONE,
{
    let ghost rs = refs.deep_view();
    let ghost os = others.deep_view();
    let (pairing, used) = pair_elements(refs, others);
    let ghost ps = indices(pairing@);
    let mut regions: Vec<LayoutDiffRegion> = Vec::new();
    let mut halves: u128 = 0;
    let mut i: usize = 0;
    assert(regions.deep_view() =~= reference_regions(rs, os, ps, 0));
    while i < refs.len()
        invariant
            i <= refs.len(),
            rs == refs.deep_view(),
            os == others.deep_view(),
            elements_in_range(rs),
            elements_in_range(os),
            pairing.len() == refs.len(),
            ps == indices(pairing@),
            forall|n: int|
                0 <= n < pairing.len() ==> (#[trigger] pairing@[n] matches Some(j) ==> j
                    < others.len()),
            regions.deep_view() == reference_regions(rs, os, ps, i as nat),
            halves == total_weight(regions.deep_view()),
            halves <= 2 * i,
        decreases refs.len() - i,
    {
        let ghost before = regions.deep_view();
        let r = &refs[i];
        proof {
            assert(rs[i as int] == r.deep_view());
            assert(r.bounding_box.in_range());
            assert(ps[i as int] == match pairing@[i as int] {
                Some(j) => Some(j as int),
                None => None,
            });
        }
        match pairing[i] {
            None => {
                regions.push(region_of(LayoutDiffKind::MissingElement, r));
                halves = halves + 2;
                assert(regions.deep_view() =~= before + regions_for(rs[i as int], ps[i as int], os));
            },
            Some(j) => {
                let o = &others[j];
                proof {
                    assert(os[j as int] == o.deep_view());
                    assert(o.bounding_box.in_range());
                }
                if boxes_shifted(&r.bounding_box, &o.bounding_box) {
                    regions.push(region_of(LayoutDiffKind::PositionShift, r));
                    halves = halves + 1;
                }
                if boxes_resized(&r.bounding_box, &o.bounding_box) {
                    regions.push(region_of(LayoutDiffKind::SizeChange, r));
                    halves = halves + 1;
                }
                assert(regions.deep_view() =~= before + regions_for(rs[i as int], ps[i as int], os));
            },
        }
        proof {
            lemma_total_weight_concat(before, regions_for(rs[i as int], ps[i as int], os));
            reveal_with_fuel(total_weight, 3);
        }
        i = i + 1;
    }
    let ghost from_refs = regions.deep_view();
    let mut j: usize = 0;
    assert(regions.deep_view() =~= from_refs + extra_regions(os, taken(ps), 0));
    while j < others.len()
        invariant
            j <= others.len(),
            os == others.deep_view(),
            ps == indices(pairing@),
            used.len() == others.len(),
            forall|n: int| 0 <= n < used.len() ==> used@[n] == taken(ps).contains(n),
            regions.deep_view() == from_refs + extra_regions(os, taken(ps), j as nat),
            halves == total_weight(regions.deep_view()),
            halves <= 2 * refs.len() + 2 * j,
        decreases others.len() - j,
    {
        let ghost before = regions.deep_view();
        let ghost piece = region_if(
            !taken(ps).contains(j as int),
            region_at(LayoutDiffKind::ExtraElement, os[j as int]),
        );
        proof {
            assert(os[j as int] == others@[j as int].deep_view());
        }
        if !used[j] {
            regions.push(region_of(LayoutDiffKind::ExtraElement, &others[j]));
            halves = halves + 2;
        }
        proof {
            assert(regions.deep_view() =~= before + piece);
            assert(from_refs + extra_regions(os, taken(ps), (j + 1) as nat) =~= (from_refs
                + extra_regions(os, taken(ps), j as nat)) + piece);
            lemma_total_weight_concat(before, piece);
            reveal_with_fuel(total_weight, 3);
        }
        j = j + 1;
    }
    let elements: usize = if refs.len() > others.len() {
        refs.len()
    } else {
        others.len()
    };
    let score: u32 = if elements == 0 {
        SCORE_ONE
    } else {
        let loss: u128 = halves * 500_000 / elements as u128;
        if loss >= 1_000_000 {
            0
        } else {
            (1_000_000 - loss) as u32
        }
    };
    LayoutMetric { score, diff_regions: regions }
}

/// What the layout metric finds for two views: nothing unless each carries a
/// DOM or a Figma tree and has a raster that is not empty.
pub open spec fn layout_of(reference: NormalizedView, implementation: NormalizedView) -> Option<
    (int, Seq<LayoutDiffRegionModel>),
> {
    match (view_elements(reference), view_elements(implementation)) {
        (Some(refs), Some(others)) => {
            let regions = layout_regions(refs, others);
            Some(
                (
                    layout_score(
                        total_weight(regions),
                        most(refs.len() as int, others.len() as int) as nat,
                    ),
                    regions,
                ),
            )
        },
        _ => None,
    }
}

/// Compares the layout of two views.
pub fn layout_metric(reference: &NormalizedView, implementation: &NormalizedView) -> (r: Option<
    LayoutMetric,
>)
    requires
        reference.coordinates_in_range(),
        implementation.coordinates_in_range(),
    ensures
        match layout_of(*reference, *implementation) {
            Some((score, regions)) => {
                &&& r is Some
                &&& r->0.score == score
                &&& r->0.score <= SCORE_ONE
                &&& r->0.diff_regions.deep_view() == regions
            },
            None => r is None,
        },
{
    let refs = match collect_elements(reference) {
        Some(refs) => refs,
        None => {
            return None;
        },
    };
    let others = match collect_elements(implementation) {
        Some(others) => others,
        None => {
            return None;
        },
    };
    Some(compare_layout(&refs, &others))
}

} // verus!
