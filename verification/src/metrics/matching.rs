//! Pairing the elements of the reference with those of the implementation.
//!
//! The elements of a view are the nodes of its DOM or of its Figma tree,
//! with their rectangles given as fractions of the raster. Two elements pair
//! up when they are of the same kind and their rectangles overlap by at
//! least half of the area that both cover together. Each element of the
//! reference, in order, takes the first element of the implementation that
//! pairs up with it and is still free.

use crate::geometry::coord_in_range;
use crate::geometry::BoundingBox;
use crate::text::eq_ignore_case;
use crate::text::str_eq_ignore_case;
use crate::types::dom::DomNode;
use crate::types::figma::FigmaNode;
use crate::types::figma::TypographyStyle;
use crate::types::figma::TypographyStyleModel;
use crate::types::view::NormalizedView;
use vstd::prelude::*;

verus! {

/// An element as the structural metrics see it: its kind is the tag of a DOM
/// node or the type of a Figma node, its rectangle is in millionths of the
/// raster.
#[derive(Debug)]
pub struct Element {
    pub id: String,
    pub kind: String,
    pub bounding_box: BoundingBox,
    pub style: Option<TypographyStyle>,
}

/// What an `Element` holds, as plain values.
pub struct ElementModel {
    pub id: Seq<char>,
    pub kind: Seq<char>,
    pub bounding_box: BoundingBox,
    pub style: Option<TypographyStyleModel>,
}

impl DeepView for Element {
    type V = ElementModel;

    open spec fn deep_view(&self) -> ElementModel {
        ElementModel {
            id: self.id@,
            kind: self.kind@,
            bounding_box: self.bounding_box,
            style: self.style.deep_view(),
        }
    }
}

/// A coordinate in millionths of a pixel as a fraction, in millionths, of an
/// extent in pixels; rounded down.
pub open spec fn as_fraction(v: i64, extent: u32) -> i64
    recommends
        extent > 0,
{
    if v >= 0 {
        (v as int / extent as int) as i64
    } else {
        (-((-v + extent - 1) / extent as int)) as i64
    }
}

/// A rectangle in pixels as a fraction of a raster of `width` by `height`.
pub open spec fn normalized_box(b: BoundingBox, width: u32, height: u32) -> BoundingBox {
    BoundingBox {
        x: as_fraction(b.x, width),
        y: as_fraction(b.y, height),
        width: as_fraction(b.width, width),
        height: as_fraction(b.height, height),
    }
}

/// The typography of a DOM node: what its computed style says of the font.
pub open spec fn dom_style(node: DomNode) -> Option<TypographyStyleModel> {
    match node.computed_style {
        Some(s) => Some(
            TypographyStyleModel {
                font_family: s.font_family.deep_view(),
                font_size: s.font_size,
                font_weight: s.font_weight.deep_view(),
                line_height: s.line_height,
            },
        ),
        None => None,
    }
}

/// The element that a DOM node is, in a raster of `width` by `height`.
pub open spec fn dom_element(node: DomNode, width: u32, height: u32) -> ElementModel {
    ElementModel {
        id: node.id@,
        kind: node.tag@,
        bounding_box: normalized_box(node.bounding_box, width, height),
        style: dom_style(node),
    }
}

/// The element that a Figma node is, in a raster of `width` by `height`.
pub open spec fn figma_element(node: FigmaNode, width: u32, height: u32) -> ElementModel {
    ElementModel {
        id: node.id@,
        kind: node.node_type@,
        bounding_box: normalized_box(node.bounding_box, width, height),
        style: node.typography.deep_view(),
    }
}

/// The elements of a view: those of its DOM where it has one, else those of
/// its Figma tree. None where the view carries no structure or its raster is
/// empty.
pub open spec fn view_elements(view: NormalizedView) -> Option<Seq<ElementModel>> {
    if view.width == 0 || view.height == 0 {
        None
    } else {
        match view.dom {
            Some(dom) => Some(
                Seq::new(
                    dom.nodes@.len(),
                    |i: int| dom_element(dom.nodes@[i], view.width, view.height),
                ),
            ),
            None => match view.figma_tree {
                Some(tree) => Some(
                    Seq::new(
                        tree.nodes@.len(),
                        |i: int| figma_element(tree.nodes@[i], view.width, view.height),
                    ),
                ),
                None => None,
            },
        }
    }
}

/// The smaller of two numbers.
pub open spec fn least(a: int, b: int) -> int {
    if a < b {
        a
    } else {
        b
    }
}

/// The larger of two numbers.
pub open spec fn most(a: int, b: int) -> int {
    if a > b {
        a
    } else {
        b
    }
}

/// The length that two ranges share: nothing where they do not meet or where
/// one of them has no length.
pub open spec fn shared_length(a0: int, a_len: int, b0: int, b_len: int) -> int {
    most(0, least(a0 + most(0, a_len), b0 + most(0, b_len)) - most(a0, b0))
}

/// The area of a rectangle; a rectangle of negative extent has none.
pub open spec fn area(b: BoundingBox) -> int {
    most(0, b.width as int) * most(0, b.height as int)
}

/// The area that both rectangles cover.
pub open spec fn intersection(a: BoundingBox, b: BoundingBox) -> int {
    shared_length(a.x as int, a.width as int, b.x as int, b.width as int) * shared_length(
        a.y as int,
        a.height as int,
        b.y as int,
        b.height as int,
    )
}

/// The rectangles overlap by at least half of what they cover together.
pub open spec fn overlaps_enough(a: BoundingBox, b: BoundingBox) -> bool {
    let common = intersection(a, b);
    let together = area(a) + area(b) - common;
    together > 0 && 2 * common >= together
}

/// The two elements are of the same kind, up to ASCII case, and overlap
/// enough.
pub open spec fn pairs_up(a: ElementModel, b: ElementModel) -> bool {
    eq_ignore_case(a.kind, b.kind) && overlaps_enough(a.bounding_box, b.bounding_box)
}

/// The first element at or behind `from` that is free and pairs up with `r`.
pub open spec fn first_free(r: ElementModel, others: Seq<ElementModel>, used: Set<int>, from: int) -> Option<int>
    decreases others.len() - from,
{
    if from < 0 || from >= others.len() {
        None
    } else if !used.contains(from) && pairs_up(r, others[from]) {
        Some(from)
    } else {
        first_free(r, others, used, from + 1)
    }
}

/// The elements that the pairing has taken.
pub open spec fn taken(pairing: Seq<Option<int>>) -> Set<int> {
    Set::new(|j: int| pairing.contains(Some(j)))
}

/// For each element of the reference, the index of the element of the
/// implementation that it is paired with, if any.
pub open spec fn pairing_of(refs: Seq<ElementModel>, others: Seq<ElementModel>) -> Seq<Option<int>>
    decreases refs.len(),
{
    if refs.len() == 0 {
        Seq::empty()
    } else {
        let before = pairing_of(refs.drop_last(), others);
        before.push(first_free(refs.last(), others, taken(before), 0))
    }
}

/// Every coordinate of every element lies within the coordinate range.
pub open spec fn elements_in_range(elements: Seq<ElementModel>) -> bool {
    forall|i: int| 0 <= i < elements.len() ==> (#[trigger] elements[i]).bounding_box.in_range()
}

fn fraction_of(v: i64, extent: u32) -> (r: i64)
    requires
        extent > 0,
    ensures
        r == as_fraction(v, extent),
        coord_in_range(v as int) ==> coord_in_range(r as int),
{
    let e = extent as i128;
    if v >= 0 {
        assert(0 <= v as int / e as int <= v) by (nonlinear_arith)
            requires
                e >= 1,
                v >= 0,
        ;
        (v as i128 / e) as i64
    } else {
        let n: i128 = -(v as i128);
        assert(0 <= (n + e - 1) / (e as int) <= n) by (nonlinear_arith)
            requires
                e >= 1,
                n >= 1,
        ;
        (-((n + e - 1) / e)) as i64
    }
}

fn normalize_box(b: &BoundingBox, width: u32, height: u32) -> (r: BoundingBox)
    requires
        width > 0,
        height > 0,
    ensures
        r == normalized_box(*b, width, height),
        b.in_range() ==> r.in_range(),
{
    BoundingBox {
        x: fraction_of(b.x, width),
        y: fraction_of(b.y, height),
        width: fraction_of(b.width, width),
        height: fraction_of(b.height, height),
    }
}

/// The elements of a view.
pub fn collect_elements(view: &NormalizedView) -> (r: Option<Vec<Element>>)
    ensures
        match view_elements(*view) {
            Some(elements) => r is Some && r->0.deep_view() == elements,
            None => r is None,
        },
        view.coordinates_in_range() && r is Some ==> elements_in_range(r->0.deep_view()),
{
    if view.width == 0 || view.height == 0 {
        return None;
    }
    let mut out: Vec<Element> = Vec::new();
    if let Some(dom) = &view.dom {
        let mut i: usize = 0;
        while i < dom.nodes.len()
            invariant
                i <= dom.nodes.len(),
                view.width > 0,
                view.height > 0,
                view.dom == Some(*dom),
                out.len() == i,
                forall|k: int|
                    0 <= k < i ==> (#[trigger] out@[k]).deep_view() == dom_element(
                        dom.nodes@[k],
                        view.width,
                        view.height,
                    ),
                view.coordinates_in_range() ==> forall|k: int|
                    0 <= k < i ==> (#[trigger] out@[k]).bounding_box.in_range(),
            decreases dom.nodes.len() - i,
        {
            let node = &dom.nodes[i];
            proof {
                if view.coordinates_in_range() {
                    assert(view.boxes()[i as int].in_range());
                }
            }
            let style = match &node.computed_style {
                Some(s) => Some(
                    TypographyStyle {
                        font_family: s.font_family.clone(),
                        font_size: s.font_size,
                        font_weight: s.font_weight.clone(),
                        line_height: s.line_height,
                    },
                ),
                None => None,
            };
            out.push(
                Element {
                    id: node.id.clone(),
                    kind: node.tag.clone(),
                    bounding_box: normalize_box(&node.bounding_box, view.width, view.height),
                    style,
                },
            );
            i = i + 1;
        }
        assert(out.deep_view() =~= view_elements(*view)->0);
        Some(out)
    } else if let Some(tree) = &view.figma_tree {
        let mut i: usize = 0;
        while i < tree.nodes.len()
            invariant
                i <= tree.nodes.len(),
                view.width > 0,
                view.height > 0,
                view.dom is None,
                view.figma_tree == Some(*tree),
                out.len() == i,
                forall|k: int|
                    0 <= k < i ==> (#[trigger] out@[k]).deep_view() == figma_element(
                        tree.nodes@[k],
                        view.width,
                        view.height,
                    ),
                view.coordinates_in_range() ==> forall|k: int|
                    0 <= k < i ==> (#[trigger] out@[k]).bounding_box.in_range(),
            decreases tree.nodes.len() - i,
        {
            let node = &tree.nodes[i];
            proof {
                if view.coordinates_in_range() {
                    assert(view.boxes()[i as int].in_range());
                }
            }
            out.push(
                Element {
                    id: node.id.clone(),
                    kind: node.node_type.clone(),
                    bounding_box: normalize_box(&node.bounding_box, view.width, view.height),
                    style: node.typography.clone(),
                },
            );
            i = i + 1;
        }
        assert(out.deep_view() =~= view_elements(*view)->0);
        Some(out)
    } else {
        None
    }
}

fn shared(a0: i64, a_len: i64, b0: i64, b_len: i64) -> (r: i128)
    requires
        coord_in_range(a0 as int),
        coord_in_range(a_len as int),
        coord_in_range(b0 as int),
        coord_in_range(b_len as int),
    ensures
        r == shared_length(a0 as int, a_len as int, b0 as int, b_len as int),
        0 <= r <= 1_000_000_000_000_000_000,
{
    let a_end: i128 = a0 as i128 + if a_len > 0 {
        a_len as i128
    } else {
        0
    };
    let b_end: i128 = b0 as i128 + if b_len > 0 {
        b_len as i128
    } else {
        0
    };
    let end = if a_end < b_end {
        a_end
    } else {
        b_end
    };
    let start: i128 = if a0 > b0 {
        a0 as i128
    } else {
        b0 as i128
    };
    if end > start {
        end - start
    } else {
        0
    }
}

fn positive(v: i64) -> (r: i128)
    ensures
        r == most(0, v as int),
{
    if v > 0 {
        v as i128
    } else {
        0
    }
}

/// Whether two rectangles overlap by at least half of what they cover
/// together.
pub fn boxes_overlap_enough(a: &BoundingBox, b: &BoundingBox) -> (r: bool)
    requires
        a.in_range(),
        b.in_range(),
    ensures
        r == overlaps_enough(*a, *b),
{
    let ghost limit: int = 1_000_000_000_000_000_000;
    let common_w = shared(a.x, a.width, b.x, b.width);
    let common_h = shared(a.y, a.height, b.y, b.height);
    let (aw, ah) = (positive(a.width), positive(a.height));
    let (bw, bh) = (positive(b.width), positive(b.height));
    proof {
        assert(forall|p: int, q: int|
            0 <= p <= limit && 0 <= q <= limit ==> 0 <= #[trigger] (p * q) <= limit * limit)
            by (nonlinear_arith);
        assert(limit * limit == 1_000_000_000_000_000_000_000_000_000_000_000_000) by (nonlinear_arith)
            requires
                limit == 1_000_000_000_000_000_000,
        ;
        assert(0 <= common_w * common_h <= limit * limit);
        assert(0 <= aw * ah <= limit * limit);
        assert(0 <= bw * bh <= limit * limit);
    }
    let common: i128 = common_w * common_h;
    let together: i128 = aw * ah + bw * bh - common;
    together > 0 && 2 * common >= together
}

fn elements_pair_up(a: &Element, b: &Element) -> (r: bool)
    requires
        a.bounding_box.in_range(),
        b.bounding_box.in_range(),
    ensures
        r == pairs_up(a.deep_view(), b.deep_view()),
{
    str_eq_ignore_case(a.kind.as_str(), b.kind.as_str()) && boxes_overlap_enough(
        &a.bounding_box,
        &b.bounding_box,
    )
}

/// Pairs the elements of the reference with those of the implementation.
///
/// Returns, for each element of the reference, the index of its partner, and
/// for each element of the implementation whether it was taken.
pub fn pair_elements(refs: &Vec<Element>, others: &Vec<Element>) -> (r: (
    Vec<Option<usize>>,
    Vec<bool>,
))
    requires
        elements_in_range(refs.deep_view()),
        elements_in_range(others.deep_view()),
    ensures
        r.0.len() == refs.len(),
        indices(r.0@) == pairing_of(refs.deep_view(), others.deep_view()),
        forall|i: int| 0 <= i < r.0.len() ==> (#[trigger] r.0@[i] matches Some(j) ==> j < others.len()),
        r.1.len() == others.len(),
        forall|j: int| 0 <= j < r.1.len() ==> r.1@[j] == taken(indices(r.0@)).contains(j),
{
    let ghost rs = refs.deep_view();
    let ghost os = others.deep_view();
    let mut used: Vec<bool> = Vec::new();
    let mut k: usize = 0;
    while k < others.len()
        invariant
            k <= others.len(),
            used.len() == k,
            forall|j: int| 0 <= j < k ==> !used@[j],
        decreases others.len() - k,
    {
        used.push(false);
        k = k + 1;
    }
    let mut pairing: Vec<Option<usize>> = Vec::new();
    let mut i: usize = 0;
    assert(indices(pairing@) =~= pairing_of(rs.take(0), os));
    while i < refs.len()
        invariant
            i <= refs.len(),
            rs == refs.deep_view(),
            os == others.deep_view(),
            elements_in_range(rs),
            elements_in_range(os),
            used.len() == others.len(),
            pairing.len() == i,
            indices(pairing@) == pairing_of(rs.take(i as int), os),
            forall|j: int| 0 <= j < used.len() ==> used@[j] == taken(indices(pairing@)).contains(j),
            forall|n: int|
                0 <= n < pairing.len() ==> (#[trigger] pairing@[n] matches Some(j) ==> j
                    < others.len()),
        decreases refs.len() - i,
    {
        let ghost before = indices(pairing@);
        let ghost r = rs[i as int];
        proof {
            assert(rs.take(i + 1).drop_last() =~= rs.take(i as int));
            assert(rs.take(i + 1).last() == r);
            assert(r == refs@[i as int].deep_view());
            assert(r.bounding_box.in_range());
        }
        let mut found: Option<usize> = None;
        let mut j: usize = 0;
        while j < others.len() && found.is_none()
            invariant
                j <= others.len(),
                os == others.deep_view(),
                elements_in_range(os),
                r == refs@[i as int].deep_view(),
                i < refs.len(),
                r.bounding_box.in_range(),
                used.len() == others.len(),
                forall|n: int| 0 <= n < used.len() ==> used@[n] == taken(before).contains(n),
                match found {
                    Some(at) => at < others.len() && first_free(r, os, taken(before), 0) == Some(
                        at as int,
                    ),
                    None => first_free(r, os, taken(before), 0) == first_free(
                        r,
                        os,
                        taken(before),
                        j as int,
                    ),
                },
            decreases others.len() - j + if found is None {
                1int
            } else {
                0int
            },
        {
            proof {
                assert(os[j as int] == others@[j as int].deep_view());
                assert(os[j as int].bounding_box.in_range());
            }
            if !used[j] && elements_pair_up(&refs[i], &others[j]) {
                found = Some(j);
            } else {
                j = j + 1;
            }
        }
        if let Some(at) = found {
            used[at] = true;
        }
        pairing.push(found);
        proof {
            let after = indices(pairing@);
            let choice = first_free(r, os, taken(before), 0);
            assert(after =~= before.push(choice));
            assert forall|n: int| 0 <= n < used.len() implies used@[n] == taken(after).contains(
                n,
            ) by {
                if taken(before).contains(n) {
                    let w = choose|w: int| 0 <= w < before.len() && before[w] == Some(n);
                    assert(after[w] == Some(n));
                }
                if taken(after).contains(n) {
                    let w = choose|w: int| 0 <= w < after.len() && after[w] == Some(n);
                    if w < before.len() {
                        assert(before[w] == Some(n));
                    }
                }
                if choice == Some(n) {
                    assert(after[after.len() - 1] == Some(n));
                }
            }
        }
        i = i + 1;
    }
    assert(rs.take(refs.len() as int) =~= rs);
    (pairing, used)
}

/// The pairing with its indices as unbounded numbers.
pub open spec fn indices(pairing: Seq<Option<usize>>) -> Seq<Option<int>> {
    Seq::new(
        pairing.len(),
        |i: int|
            match pairing[i] {
                Some(j) => Some(j as int),
                None => None,
            },
    )
}

} // verus!
