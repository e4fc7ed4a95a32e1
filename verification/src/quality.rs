//! Quality heuristics: a score for a single view, with findings.
//!
//! The score starts from a baseline, gains for structure, text, headings,
//! recognised text, aligned edges and coherent spacing, loses for what is
//! missing or inconsistent, and is finally moved into the unit interval. All
//! amounts are in millionths.

pub mod alignment;
pub mod spacing;

use crate::geometry::Viewport;
use crate::output::FindingSeverity;
use crate::output::QualityFinding;
use crate::output::QualityFindingModel;
use crate::output::QualityFindingType;
use crate::quality::alignment::alignment_finding;
use crate::quality::alignment::alignment_heuristic;
use crate::quality::alignment::alignment_score;
use crate::quality::spacing::collect_vertical_gaps;
use crate::quality::spacing::evaluate_spacing;
use crate::quality::spacing::is_inconsistent;
use crate::quality::spacing::spacing_finding;
use crate::quality::spacing::spacing_penalty;
use crate::quality::spacing::vertical_gaps;
use crate::seqs::count_where;
use crate::seqs::lemma_count_step;
use crate::text::eq_ignore_case;
use crate::text::has_visible_text;
use crate::text::is_blank;
use crate::text::str_eq_ignore_case;
use crate::types::dom::DomNode;
use crate::types::figma::FigmaNode;
use crate::types::view::NormalizedView;
use vstd::prelude::*;
use vstd::string::StringExecFns;

verus! {

/// Where every score starts.
pub const BASELINE: i64 = 400_000;

/// The node carries text that is not only white space.
pub open spec fn dom_has_text() -> spec_fn(DomNode) -> bool {
    |n: DomNode| n.text is Some && !is_blank(n.text->0@)
}

/// The node is a heading of one of the three topmost levels.
pub open spec fn dom_is_heading() -> spec_fn(DomNode) -> bool {
    |n: DomNode|
        eq_ignore_case(n.tag@, "h1"@) || eq_ignore_case(n.tag@, "h2"@) || eq_ignore_case(
            n.tag@,
            "h3"@,
        )
}

/// The node carries text that is not only white space.
pub open spec fn figma_node_has_text() -> spec_fn(FigmaNode) -> bool {
    |n: FigmaNode| n.text is Some && !is_blank(n.text->0@)
}

/// Whether the node carries text that is not only white space.
pub fn node_has_text(node: &DomNode) -> (r: bool)
    ensures
        r == dom_has_text()(*node),
{
    match &node.text {
        Some(t) => has_visible_text(t.as_str()),
        None => false,
    }
}

/// Whether the node is a heading of one of the three topmost levels.
pub fn is_heading(node: &DomNode) -> (r: bool)
    ensures
        r == dom_is_heading()(*node),
{
    let tag = node.tag.as_str();
    str_eq_ignore_case(tag, "h1") || str_eq_ignore_case(tag, "h2") || str_eq_ignore_case(tag, "h3")
}

/// Whether the node carries text that is not only white space.
pub fn figma_has_text(node: &FigmaNode) -> (r: bool)
    ensures
        r == figma_node_has_text()(*node),
{
    match &node.text {
        Some(t) => has_visible_text(t.as_str()),
        None => false,
    }
}

/// `part` of `whole`, as a share of `full`: `full * part / whole`, rounded
/// down, where an empty whole counts as one.
pub open spec fn share(full: int, part: nat, whole: nat) -> int {
    full * part / (if whole == 0 {
        1
    } else {
        whole as int
    })
}

/// What the structure of the view adds to, or takes from, the score.
pub open spec fn structure_points(view: NormalizedView) -> int {
    match view.dom {
        Some(dom) => {
            let texts = count_where(dom.nodes@, dom_has_text());
            let headings = count_where(dom.nodes@, dom_is_heading());
            150_000 + (if texts == 0 {
                -100_000
            } else {
                share(250_000, texts, dom.nodes@.len())
            }) + (if headings == 0 {
                -50_000
            } else {
                50_000
            })
        },
        None => match view.figma_tree {
            Some(tree) => {
                let texts = count_where(tree.nodes@, figma_node_has_text());
                150_000 + (if texts == 0 {
                    -50_000
                } else {
                    share(200_000, texts, tree.nodes@.len())
                })
            },
            None => -100_000,
        },
    }
}

/// A warning that hierarchy is missing.
pub open spec fn warning(message: Seq<char>) -> QualityFindingModel {
    QualityFindingModel {
        severity: FindingSeverity::Warning,
        finding_type: QualityFindingType::MissingHierarchy,
        message,
    }
}

/// The finding where `present`, nothing otherwise.
pub open spec fn maybe(present: bool, finding: QualityFindingModel) -> Seq<QualityFindingModel> {
    if present {
        seq![finding]
    } else {
        Seq::empty()
    }
}

/// What is reported on the structure of the view.
pub open spec fn structure_findings(view: NormalizedView) -> Seq<QualityFindingModel> {
    match view.dom {
        Some(dom) => maybe(
            count_where(dom.nodes@, dom_has_text()) == 0,
            warning("No textual content detected; page may lack hierarchy."@),
        ) + maybe(
            count_where(dom.nodes@, dom_is_heading()) == 0,
            warning("No headings detected (h1-h3); add hierarchy for scannability."@),
        ),
        None => match view.figma_tree {
            Some(tree) => maybe(
                count_where(tree.nodes@, figma_node_has_text()) == 0,
                warning("Figma snapshot has no text nodes; add copy for hierarchy."@),
            ),
            None => seq![
                warning(
                    "No DOM or Figma metadata available; quality scoring is limited to the screenshot."@,
                ),
            ],
        },
    }
}

/// The bonus for recognised text.
pub open spec fn ocr_points(view: NormalizedView) -> int {
    if view.ocr_blocks is Some && view.ocr_blocks->0@.len() > 0 {
        30_000
    } else {
        0
    }
}

/// The bonus for aligned edges: fifteen hundredths of the alignment score.
pub open spec fn alignment_points(view: NormalizedView, viewport: Viewport) -> int {
    match alignment_score(view, viewport) {
        Some(ratio) => ratio as int * 150_000 / 1_000_000,
        None => 0,
    }
}

/// The penalty for inconsistent gaps, or the small bonus for coherent ones.
pub open spec fn spacing_points(view: NormalizedView) -> int {
    let gaps = vertical_gaps(view);
    if is_inconsistent(gaps) {
        -spacing_penalty(gaps)
    } else if gaps.len() >= 2 {
        20_000
    } else {
        0
    }
}

/// The score before it is moved into the unit interval.
pub open spec fn raw_quality(view: NormalizedView, viewport: Viewport) -> int {
    BASELINE + structure_points(view) + ocr_points(view) + alignment_points(view, viewport)
        + spacing_points(view)
}

/// The quality score of a view, in millionths.
pub open spec fn quality_score(view: NormalizedView, viewport: Viewport) -> int {
    let raw = raw_quality(view, viewport);
    if raw < 0 {
        0
    } else if raw > 1_000_000 {
        1_000_000
    } else {
        raw
    }
}

/// The finding that stands in for the contrast check.
pub open spec fn contrast_notice() -> QualityFindingModel {
    QualityFindingModel {
        severity: FindingSeverity::Info,
        finding_type: QualityFindingType::LowContrast,
        message: "Contrast heuristic not implemented yet (see design-parity-checker-vqg)."@,
    }
}

/// The findings of a view, in the order in which they are reported.
pub open spec fn quality_findings(view: NormalizedView, viewport: Viewport) -> Seq<
    QualityFindingModel,
> {
    structure_findings(view) + seq![alignment_finding(view, viewport)] + maybe(
        is_inconsistent(vertical_gaps(view)),
        spacing_finding(vertical_gaps(view)),
    ) + seq![contrast_notice()]
}

/// Whatever the view and the viewport, the quality score lies in the unit
/// interval.
pub proof fn law_quality_score_in_unit_interval(view: NormalizedView, viewport: Viewport)
    ensures
        0 <= quality_score(view, viewport) <= 1_000_000,
{
}

fn count_dom_text(nodes: &Vec<DomNode>) -> (n: usize)
    ensures
        n == count_where(nodes@, dom_has_text()),
        n <= nodes.len(),
{
    let ghost p = dom_has_text();
    let mut n: usize = 0;
    let mut i: usize = 0;
    while i < nodes.len()
        invariant
            i <= nodes.len(),
            p == dom_has_text(),
            n == count_where(nodes@.take(i as int), p),
            n <= i,
        decreases nodes.len() - i,
    {
        proof {
            lemma_count_step(nodes@, p, i as int);
        }
        if node_has_text(&nodes[i]) {
            n = n + 1;
        }
        i = i + 1;
    }
    assert(nodes@.take(nodes.len() as int) =~= nodes@);
    n
}

fn count_headings(nodes: &Vec<DomNode>) -> (n: usize)
    ensures
        n == count_where(nodes@, dom_is_heading()),
        n <= nodes.len(),
{
    let ghost p = dom_is_heading();
    let mut n: usize = 0;
    let mut i: usize = 0;
    while i < nodes.len()
        invariant
            i <= nodes.len(),
            p == dom_is_heading(),
            n == count_where(nodes@.take(i as int), p),
            n <= i,
        decreases nodes.len() - i,
    {
        proof {
            lemma_count_step(nodes@, p, i as int);
        }
        if is_heading(&nodes[i]) {
            n = n + 1;
        }
        i = i + 1;
    }
    assert(nodes@.take(nodes.len() as int) =~= nodes@);
    n
}

fn count_figma_text(nodes: &Vec<FigmaNode>) -> (n: usize)
    ensures
        n == count_where(nodes@, figma_node_has_text()),
        n <= nodes.len(),
{
    let ghost p = figma_node_has_text();
    let mut n: usize = 0;
    let mut i: usize = 0;
    while i < nodes.len()
        invariant
            i <= nodes.len(),
            p == figma_node_has_text(),
            n == count_where(nodes@.take(i as int), p),
            n <= i,
        decreases nodes.len() - i,
    {
        proof {
            lemma_count_step(nodes@, p, i as int);
        }
        if figma_has_text(&nodes[i]) {
            n = n + 1;
        }
        i = i + 1;
    }
    assert(nodes@.take(nodes.len() as int) =~= nodes@);
    n
}

fn share_of(full: u32, part: usize, whole: usize) -> (r: i64)
    requires
        part <= whole,
        full <= 1_000_000,
    ensures
        r == share(full as int, part as nat, whole as nat),
        0 <= r <= full,
{
    let divisor: u128 = if whole == 0 {
        1
    } else {
        whole as u128
    };
    assert(0 <= full as int * part as int / divisor as int <= full) by (nonlinear_arith)
        requires
            0 <= part <= divisor,
            divisor > 0,
            0 <= full,
    ;
    assert(full as int * part as int <= 1_000_000 * 0x1_0000_0000_0000_0000) by (nonlinear_arith)
        requires
            0 <= full <= 1_000_000,
            0 <= part <= 0x1_0000_0000_0000_0000,
    ;
    (full as u128 * part as u128 / divisor) as i64
}

fn missing_hierarchy(message: &str) -> (f: QualityFinding)
    ensures
        f.deep_view() == warning(message@),
{
    QualityFinding {
        severity: FindingSeverity::Warning,
        finding_type: QualityFindingType::MissingHierarchy,
        message: String::from_str(message),
    }
}

/// Scores the structure of the view and appends what there is to report.
fn score_structure(view: &NormalizedView, findings: &mut Vec<QualityFinding>) -> (points: i64)
    ensures
        points == structure_points(*view),
        -100_000 <= points <= 450_000,
        final(findings).deep_view() == old(findings).deep_view() + structure_findings(*view),
{
    let mut points: i64 = 0;
    if let Some(dom) = &view.dom {
        points = points + 150_000;
        let texts = count_dom_text(&dom.nodes);
        if texts == 0 {
            findings.push(
                missing_hierarchy("No textual content detected; page may lack hierarchy."),
            );
            points = points - 100_000;
        } else {
            points = points + share_of(250_000, texts, dom.nodes.len());
        }
        let ghost middle = findings.deep_view();
        assert(middle =~= old(findings).deep_view() + maybe(
            texts == 0,
            warning("No textual content detected; page may lack hierarchy."@),
        ));
        let headings = count_headings(&dom.nodes);
        if headings == 0 {
            findings.push(
                missing_hierarchy("No headings detected (h1-h3); add hierarchy for scannability."),
            );
            points = points - 50_000;
        } else {
            points = points + 50_000;
        }
        assert(findings.deep_view() =~= middle + maybe(
            headings == 0,
            warning("No headings detected (h1-h3); add hierarchy for scannability."@),
        ));
        assert(findings.deep_view() =~= old(findings).deep_view() + structure_findings(*view));
    } else if let Some(tree) = &view.figma_tree {
        points = points + 150_000;
        let texts = count_figma_text(&tree.nodes);
        if texts == 0 {
            findings.push(
                missing_hierarchy("Figma snapshot has no text nodes; add copy for hierarchy."),
            );
            points = points - 50_000;
        } else {
            points = points + share_of(200_000, texts, tree.nodes.len());
        }
        assert(findings.deep_view() =~= old(findings).deep_view() + structure_findings(*view));
    } else {
        findings.push(
            missing_hierarchy(
                "No DOM or Figma metadata available; quality scoring is limited to the screenshot.",
            ),
        );
        points = points - 100_000;
        assert(findings.deep_view() =~= old(findings).deep_view() + structure_findings(*view));
    }
    points
}

/// Scores a view for the quality of its design and returns the score, in
/// millionths, with the findings that explain it.
pub fn score_quality(view: &NormalizedView, viewport: &Viewport) -> (r: (u32, Vec<QualityFinding>))
    requires
        view.coordinates_in_range(),
    ensures
        r.0 == quality_score(*view, *viewport),
        r.0 <= 1_000_000,
        r.1.deep_view() == quality_findings(*view, *viewport),
{
    let mut findings: Vec<QualityFinding> = Vec::new();
    let gaps = collect_vertical_gaps(view);
    let mut score: i64 = BASELINE;
    let structure = score_structure(view, &mut findings);
    score = score + structure;
    assert(findings.deep_view() =~= structure_findings(*view));

    if let Some(blocks) = &view.ocr_blocks {
        if blocks.len() > 0 {
            score = score + 30_000;
        }
    }
    let (ratio, alignment) = alignment_heuristic(view, viewport);
    if let Some(ratio) = ratio {
        score = score + (ratio as i64 * 150_000 / 1_000_000);
    }
    let ghost before_alignment = findings.deep_view();
    findings.push(alignment);
    assert(findings.deep_view() =~= before_alignment + seq![alignment_finding(*view, *viewport)]);

    let ghost before_spacing = findings.deep_view();
    match evaluate_spacing(&gaps) {
        Some((finding, penalty)) => {
            findings.push(finding);
            score = score - penalty as i64;
        },
        None => {
            if gaps.len() >= 2 {
                score = score + 20_000;
            }
        },
    }
    assert(findings.deep_view() =~= before_spacing + maybe(
        is_inconsistent(vertical_gaps(*view)),
        spacing_finding(vertical_gaps(*view)),
    ));
    let ghost before_contrast = findings.deep_view();
    findings.push(
        QualityFinding {
            severity: FindingSeverity::Info,
            finding_type: QualityFindingType::LowContrast,
            message: String::from_str(
                "Contrast heuristic not implemented yet (see design-parity-checker-vqg).",
            ),
        },
    );
    assert(findings.deep_view() =~= before_contrast + seq![contrast_notice()]);
    assert(findings.deep_view() =~= quality_findings(*view, *viewport));
    let clamped: u32 = if score < 0 {
        0
    } else if score > 1_000_000 {
        1_000_000
    } else {
        score as u32
    };
    (clamped, findings)
}

} // verus!
