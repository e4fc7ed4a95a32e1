//! The content metric: how much of the text of the reference is found in the
//! implementation.
//!
//! The text of each element is normalized: white space at its ends is
//! dropped, each run of white space inside becomes one space, and ASCII
//! letters are lower-cased. The texts of a view form a set. The score is the
//! size of the intersection of the two sets over the size of their union.

use crate::text::chars_of;
use crate::text::char_is_space;
use crate::text::is_space;
use crate::text::lower;
use crate::text::str_equal;
use crate::text::to_lower;
use crate::types::dom::DomNode;
use crate::types::figma::FigmaNode;
use crate::types::metric_results::ContentMetric;
use crate::types::metric_results::SCORE_ONE;
use crate::types::view::NormalizedView;
use vstd::prelude::*;

verus! {

/// `s` with the white space at its ends dropped, each run of white space
/// inside replaced by one space, and ASCII letters lower-cased.
pub open spec fn normalized_text(s: Seq<char>) -> Seq<char>
    decreases s.len(),
{
    if s.len() == 0 {
        s
    } else {
        let before = normalized_text(s.drop_last());
        let c = s.last();
        if is_space(c) {
            before
        } else if before.len() > 0 && is_space(s[s.len() - 2]) {
            before + seq![' ', lower(c)]
        } else {
            before.push(lower(c))
        }
    }
}

/// The text of each DOM node that has one, in the order of the nodes.
pub open spec fn dom_texts(nodes: Seq<DomNode>) -> Seq<Seq<char>>
    decreases nodes.len(),
{
    if nodes.len() == 0 {
        Seq::empty()
    } else {
        let before = dom_texts(nodes.drop_last());
        match nodes.last().text {
            Some(t) => before.push(t@),
            None => before,
        }
    }
}

/// The text of each Figma node of type `TEXT` that has one, in the order of
/// the nodes.
pub open spec fn figma_texts(nodes: Seq<FigmaNode>) -> Seq<Seq<char>>
    decreases nodes.len(),
{
    if nodes.len() == 0 {
        Seq::empty()
    } else {
        let before = figma_texts(nodes.drop_last());
        let node = nodes.last();
        if node.node_type@ == "TEXT"@ && node.text is Some {
            before.push(node.text->0@)
        } else {
            before
        }
    }
}

/// The texts that a view offers: those of its DOM where it has one, else
/// those of its Figma tree, else none at all.
pub open spec fn view_texts(view: NormalizedView) -> Option<Seq<Seq<char>>> {
    match view.dom {
        Some(dom) => Some(dom_texts(dom.nodes@)),
        None => match view.figma_tree {
            Some(tree) => Some(figma_texts(tree.nodes@)),
            None => None,
        },
    }
}

/// The set of the normalized texts, as a sequence without repetition in the
/// order of first occurrence. Texts that normalize to nothing are left out.
pub open spec fn text_set(texts: Seq<Seq<char>>) -> Seq<Seq<char>>
    decreases texts.len(),
{
    if texts.len() == 0 {
        Seq::empty()
    } else {
        let before = text_set(texts.drop_last());
        let t = normalized_text(texts.last());
        if t.len() == 0 || before.contains(t) {
            before
        } else {
            before.push(t)
        }
    }
}

/// The elements of `xs` that `ys` lacks, in their order.
pub open spec fn without(xs: Seq<Seq<char>>, ys: Seq<Seq<char>>) -> Seq<Seq<char>>
    decreases xs.len(),
{
    if xs.len() == 0 {
        Seq::empty()
    } else {
        let before = without(xs.drop_last(), ys);
        if ys.contains(xs.last()) {
            before
        } else {
            before.push(xs.last())
        }
    }
}

/// The Jaccard index of two sets, of which `missing` elements are in the
/// first only, `extra` in the second only and `common` in both, in
/// millionths; one whole where both sets are empty.
pub open spec fn jaccard(common: nat, missing: nat, extra: nat) -> int {
    let union = (common + missing + extra) as int;
    if union == 0 {
        SCORE_ONE as int
    } else {
        (common as int * 1_000_000) / union
    }
}

/// What the content metric finds for the texts of the two sides.
pub open spec fn content_of(reference: Seq<Seq<char>>, implementation: Seq<Seq<char>>) -> (
    int,
    Seq<Seq<char>>,
    Seq<Seq<char>>,
) {
    let a = text_set(reference);
    let b = text_set(implementation);
    let missing = without(a, b);
    let extra = without(b, a);
    (jaccard((a.len() - missing.len()) as nat, missing.len(), extra.len()), missing, extra)
}

/// The Jaccard index lies in the unit interval.
pub proof fn lemma_jaccard_bounded(common: nat, missing: nat, extra: nat)
    ensures
        0 <= jaccard(common, missing, extra) <= SCORE_ONE,
{
    let union = (common + missing + extra) as int;
    if union > 0 {
        let c = common as int;
        assert(0 <= (c * 1_000_000) / union <= 1_000_000) by (nonlinear_arith)
            requires
                0 <= c <= union,
                union > 0,
        ;
    }
}

/// Normalizes a text.
pub fn normalize_text(s: &str) -> (out: String)
    ensures
        out@ == normalized_text(s@),
{
    let v = chars_of(s);
    let mut out = String::new();
    let mut started = false;
    let mut i: usize = 0;
    assert(v@.take(0) =~= Seq::<char>::empty());
    while i < v.len()
        invariant
            i <= v.len(),
            out@ == normalized_text(v@.take(i as int)),
            started == (out@.len() > 0),
        decreases v.len() - i,
    {
        let c = v[i];
        proof {
            assert(v@.take(i + 1).drop_last() =~= v@.take(i as int));
            assert(v@.take(i + 1).last() == c);
            if i > 0 {
                assert(v@.take(i + 1)[i - 1] == v@[i - 1]);
            }
        }
        if !char_is_space(c) {
            if started && char_is_space(v[i - 1]) {
                out.push(' ');
            }
            out.push(to_lower(c));
            started = true;
            assert(out@ =~= normalized_text(v@.take(i + 1)));
        }
        i = i + 1;
    }
    assert(v@.take(v.len() as int) =~= v@);
    out
}

fn holds(set: &Vec<String>, t: &str) -> (r: bool)
    ensures
        r == set.deep_view().contains(t@),
{
    let ghost all = set.deep_view();
    let mut i: usize = 0;
    while i < set.len()
        invariant
            i <= set.len(),
            all == set.deep_view(),
            forall|k: int| 0 <= k < i ==> all[k] != t@,
        decreases set.len() - i,
    {
        assert(all[i as int] == set@[i as int]@);
        if str_equal(set[i].as_str(), t) {
            return true;
        }
        i = i + 1;
    }
    false
}

/// Adds the normalized form of `text` to the set unless it is empty or there
/// already.
fn add_text(set: &mut Vec<String>, text: &str, Ghost(texts): Ghost<Seq<Seq<char>>>)
    requires
        old(set).deep_view() == text_set(texts),
    ensures
        final(set).deep_view() == text_set(texts.push(text@)),
{
    let t = normalize_text(text);
    proof {
        assert(texts.push(text@).drop_last() =~= texts);
    }
    if t.as_str().unicode_len() > 0 && !holds(set, t.as_str()) {
        let ghost before = set.deep_view();
        set.push(t);
        assert(set.deep_view() =~= before.push(t@));
    }
}

/// The set of the texts of a view, or nothing where the view carries no
/// structure.
pub fn collect_text_set(view: &NormalizedView) -> (r: Option<Vec<String>>)
    ensures
        match view_texts(*view) {
            Some(texts) => r is Some && r->0.deep_view() == text_set(texts),
            None => r is None,
        },
{
    let mut set: Vec<String> = Vec::new();
    if let Some(dom) = &view.dom {
        let mut i: usize = 0;
        assert(dom.nodes@.take(0) =~= Seq::<DomNode>::empty());
        assert(set.deep_view() =~= text_set(Seq::empty()));
        while i < dom.nodes.len()
            invariant
                i <= dom.nodes.len(),
                set.deep_view() == text_set(dom_texts(dom.nodes@.take(i as int))),
            decreases dom.nodes.len() - i,
        {
            proof {
                assert(dom.nodes@.take(i + 1).drop_last() =~= dom.nodes@.take(i as int));
            }
            if let Some(t) = &dom.nodes[i].text {
                add_text(&mut set, t.as_str(), Ghost(dom_texts(dom.nodes@.take(i as int))));
            }
            i = i + 1;
        }
        assert(dom.nodes@.take(dom.nodes.len() as int) =~= dom.nodes@);
        Some(set)
    } else if let Some(tree) = &view.figma_tree {
        let mut i: usize = 0;
        assert(tree.nodes@.take(0) =~= Seq::<FigmaNode>::empty());
        assert(set.deep_view() =~= text_set(Seq::empty()));
        while i < tree.nodes.len()
            invariant
                i <= tree.nodes.len(),
                set.deep_view() == text_set(figma_texts(tree.nodes@.take(i as int))),
            decreases tree.nodes.len() - i,
        {
            proof {
                assert(tree.nodes@.take(i + 1).drop_last() =~= tree.nodes@.take(i as int));
            }
            if str_equal(tree.nodes[i].node_type.as_str(), "TEXT") {
                if let Some(t) = &tree.nodes[i].text {
                    add_text(&mut set, t.as_str(), Ghost(figma_texts(tree.nodes@.take(i as int))));
                }
            }
            i = i + 1;
        }
        assert(tree.nodes@.take(tree.nodes.len() as int) =~= tree.nodes@);
        Some(set)
    } else {
        None
    }
}

fn difference(xs: &Vec<String>, ys: &Vec<String>) -> (out: Vec<String>)
    ensures
        out.deep_view() == without(xs.deep_view(), ys.deep_view()),
        out.len() <= xs.len(),
{
    let ghost a = xs.deep_view();
    let ghost b = ys.deep_view();
    let mut out: Vec<String> = Vec::new();
    let mut i: usize = 0;
    assert(out.deep_view() =~= without(a.take(0), b));
    while i < xs.len()
        invariant
            i <= xs.len(),
            a == xs.deep_view(),
            b == ys.deep_view(),
            out.deep_view() == without(a.take(i as int), b),
            out.len() <= i,
        decreases xs.len() - i,
    {
        proof {
            assert(a.take(i + 1).drop_last() =~= a.take(i as int));
            assert(a.take(i + 1).last() == xs@[i as int]@);
        }
        if !holds(ys, xs[i].as_str()) {
            let ghost before = out.deep_view();
            let t = xs[i].clone();
            out.push(t);
            assert(out.deep_view() =~= before.push(xs@[i as int]@));
        }
        i = i + 1;
    }
    assert(a.take(xs.len() as int) =~= a);
    out
}

/// Compares the texts of two views. Gives nothing unless each view carries a
/// DOM or a Figma tree.
pub fn content_metric(reference: &NormalizedView, implementation: &NormalizedView) -> (r: Option<
    ContentMetric,
>)
    ensures
        match (view_texts(*reference), view_texts(*implementation)) {
            (Some(a), Some(b)) => {
                &&& r is Some
                &&& r->0.score == content_of(a, b).0
                &&& r->0.score <= SCORE_ONE
                &&& r->0.missing_text.deep_view() == content_of(a, b).1
                &&& r->0.extra_text.deep_view() == content_of(a, b).2
            },
            _ => r is None,
        },
{
    let a = match collect_text_set(reference) {
        Some(a) => a,
        None => {
            return None;
        },
    };
    let b = match collect_text_set(implementation) {
        Some(b) => b,
        None => {
            return None;
        },
    };
    let missing = difference(&a, &b);
    let extra = difference(&b, &a);
    let common: usize = a.len() - missing.len();
    proof {
        lemma_jaccard_bounded(common as nat, missing.len() as nat, extra.len() as nat);
    }
    let union: u128 = common as u128 + missing.len() as u128 + extra.len() as u128;
    let score: u32 = if union == 0 {
        SCORE_ONE
    } else {
        (common as u128 * 1_000_000 / union) as u32
    };
    Some(ContentMetric { score, missing_text: missing, extra_text: extra })
}

} // verus!
