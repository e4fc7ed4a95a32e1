use dpc_lib::geometry::BoundingBox;
use dpc_lib::geometry::Viewport;
use dpc_lib::output::FindingSeverity;
use dpc_lib::output::QualityFinding;
use dpc_lib::output::QualityFindingType;
use dpc_lib::quality::alignment::alignment_heuristic;
use dpc_lib::quality::alignment::cluster_positions;
use dpc_lib::quality::is_heading;
use dpc_lib::quality::node_has_text;
use dpc_lib::quality::score_quality;
use dpc_lib::quality::spacing::collect_vertical_gaps;
use dpc_lib::quality::spacing::evaluate_spacing;
use dpc_lib::quality::spacing::fill_buckets;
use dpc_lib::types::DomNode;
use dpc_lib::types::DomSnapshot;
use dpc_lib::types::FigmaNode;
use dpc_lib::types::FigmaSnapshot;
use dpc_lib::types::NormalizedView;
use dpc_lib::types::OcrBlock;
use dpc_lib::types::ResourceKind;

const VIEWPORT: Viewport = Viewport { width: 800, height: 600 };

fn bbox(x: i64, y: i64, width: i64, height: i64) -> BoundingBox {
    BoundingBox { x, y, width, height }
}

fn node(idx: usize, tag: &str, text: Option<&str>, bounding_box: BoundingBox) -> DomNode {
    DomNode {
        id: format!("n{idx}"),
        tag: tag.to_string(),
        children: Vec::new(),
        parent: None,
        attributes: Vec::new(),
        text: text.map(|t| t.to_string()),
        bounding_box,
        computed_style: None,
    }
}

fn view_with_nodes(nodes: Vec<DomNode>) -> NormalizedView {
    NormalizedView {
        kind: ResourceKind::Image,
        screenshot_path: "dummy.png".into(),
        width: 100,
        height: 100,
        dom: Some(DomSnapshot { url: None, title: None, nodes }),
        figma_tree: None,
        ocr_blocks: None,
    }
}

fn view_with_boxes(boxes: Vec<BoundingBox>) -> NormalizedView {
    view_with_nodes(boxes.into_iter().enumerate().map(|(i, b)| node(i, "div", None, b)).collect())
}

fn bare_view() -> NormalizedView {
    NormalizedView {
        kind: ResourceKind::Image,
        screenshot_path: "solid.png".into(),
        width: 10,
        height: 10,
        dom: None,
        figma_tree: None,
        ocr_blocks: None,
    }
}

fn has_type(findings: &[QualityFinding], wanted: QualityFindingType) -> bool {
    findings.iter().any(|f| f.finding_type == wanted)
}

#[test]
fn does_not_flag_spacing_with_consistent_gaps() {
    let view = view_with_boxes(vec![
        bbox(0, 0, 200_000, 100_000),
        bbox(50_000, 150_000, 200_000, 100_000),
        bbox(100_000, 300_000, 200_000, 100_000),
        bbox(100_000, 450_000, 200_000, 100_000),
    ]);

    let (_score, findings) = score_quality(&view, &Viewport { width: 800, height: 600 });
    assert!(
        !findings.iter().any(|f| matches!(f.finding_type, QualityFindingType::SpacingInconsistent)),
        "should not flag spacing when gaps are consistent and few distinct values"
    );
}

#[test]
fn four_distinct_buckets_among_five_gaps_are_not_flagged() {
    let view = view_with_boxes(vec![
        bbox(0, 0, 200_000, 100_000),
        bbox(100_000, 150_000, 200_000, 100_000),
        bbox(200_000, 320_000, 200_000, 100_000),
        bbox(50_000, 500_000, 200_000, 100_000),
        bbox(50_000, 680_000, 200_000, 100_000),
        bbox(50_000, 870_000, 200_000, 100_000),
    ]);
    let gaps = collect_vertical_gaps(&view);
    assert_eq!(gaps, vec![50_000, 70_000, 80_000, 80_000, 90_000]);
    assert_eq!(fill_buckets(&gaps), (4, 2));
    assert!(evaluate_spacing(&gaps).is_none());
    let (_score, findings) = score_quality(&view, &VIEWPORT);
    assert!(!has_type(&findings, QualityFindingType::SpacingInconsistent));
}

#[test]
fn flags_spacing_with_five_distinct_gaps() {
    let view = view_with_boxes(vec![
        bbox(0, 0, 200_000, 100_000),
        bbox(100_000, 150_000, 200_000, 100_000),
        bbox(200_000, 320_000, 200_000, 100_000),
        bbox(50_000, 500_000, 200_000, 100_000),
        bbox(50_000, 690_000, 200_000, 100_000),
        bbox(50_000, 900_000, 200_000, 100_000),
    ]);
    let gaps = collect_vertical_gaps(&view);
    assert_eq!(gaps, vec![50_000, 70_000, 80_000, 90_000, 110_000]);
    let (finding, penalty) = evaluate_spacing(&gaps).expect("five distinct gaps");
    assert_eq!(finding.severity, FindingSeverity::Warning);
    assert_eq!(finding.finding_type, QualityFindingType::SpacingInconsistent);
    assert_eq!(
        finding.message,
        "Spacing appears inconsistent: 5 distinct vertical gaps across 5 samples (min 5.0%, max 11.0%)."
    );
    // 0.05 + (1 - 1/5) * 0.10
    assert_eq!(penalty, 130_000);
    let (score, findings) = score_quality(&view, &VIEWPORT);
    assert!(has_type(&findings, QualityFindingType::SpacingInconsistent));
    // 0.4 + 0.15 - 0.1 (no text) - 0.05 (no heading) - 0.13; no box is wide enough to align
    assert_eq!(score, 270_000);
}

#[test]
fn spacing_penalty_counts_gaps_outside_the_fullest_bucket() {
    // buckets 1, 1, 1, 2, 3, 4, 5, 1: five distinct, the fullest holds four of eight
    let gaps = vec![10_000, 11_000, 9_000, 20_000, 30_000, 40_000, 50_000, 14_999];
    assert_eq!(fill_buckets(&gaps), (5, 4));
    let (finding, penalty) = evaluate_spacing(&gaps).unwrap();
    assert_eq!(penalty, 100_000);
    assert_eq!(
        finding.message,
        "Spacing appears inconsistent: 5 distinct vertical gaps across 8 samples (min 0.9%, max 5.0%)."
    );
}

#[test]
fn buckets_round_half_away_from_zero() {
    assert_eq!(fill_buckets(&vec![5_000, 14_999, 15_000, 24_999]), (2, 2));
    assert_eq!(fill_buckets(&vec![-5_000, -4_999, 4_999, 5_000]), (3, 2));
    assert_eq!(fill_buckets(&Vec::new()), (0, 0));
}

#[test]
fn fewer_than_five_gaps_are_never_flagged() {
    assert!(evaluate_spacing(&vec![10_000, 20_000, 30_000, 40_000]).is_none());
    assert!(evaluate_spacing(&Vec::new()).is_none());
}

#[test]
fn large_gaps_are_shown_capped_at_one_whole() {
    let gaps = vec![2_000_000, 3_000_000, 4_000_000, 5_000_000, 6_000_000];
    let (finding, penalty) = evaluate_spacing(&gaps).unwrap();
    assert_eq!(penalty, 130_000);
    assert_eq!(
        finding.message,
        "Spacing appears inconsistent: 5 distinct vertical gaps across 5 samples (min 100.0%, max 100.0%)."
    );
}

#[test]
fn vertical_gaps_sort_by_top_then_left_and_skip_flat_boxes() {
    let view = view_with_boxes(vec![
        bbox(0, 500_000, 10, 100_000),
        bbox(900, 0, 10, 100_000),
        bbox(100, 0, 10, 300_000),
        bbox(0, 200_000, 10, 0),
        bbox(0, 300_500, 10, 100_000),
        bbox(0, 401_000, 10, -5),
    ]);
    // reading order: (y 0, x 100, h 0.3), (y 0, x 900, h 0.1), (y 0.3005), (y 0.5)
    // gaps: 0 - 0.3 (dropped), 0.3005 - 0.1 = 0.2005, 0.5 - 0.4005 = 0.0995
    assert_eq!(collect_vertical_gaps(&view), vec![200_500, 99_500]);
}

#[test]
fn gaps_at_the_floor_are_dropped() {
    let view = view_with_boxes(vec![
        bbox(0, 0, 10, 100_000),
        bbox(0, 101_000, 10, 100_000),
        bbox(0, 202_001, 10, 100_000),
    ]);
    assert_eq!(collect_vertical_gaps(&view), vec![1_001]);
}

#[test]
fn coherent_spacing_earns_a_small_bonus() {
    let view = view_with_boxes(vec![
        bbox(0, 0, 200_000, 100_000),
        bbox(0, 150_000, 200_000, 100_000),
        bbox(0, 300_000, 200_000, 100_000),
    ]);
    let (score, findings) = score_quality(&view, &VIEWPORT);
    // 0.4 + 0.15 - 0.1 - 0.05 + 0.02
    assert_eq!(score, 420_000);
    assert_eq!(findings.len(), 4);
}

#[test]
fn quality_of_a_bare_image_reports_missing_hierarchy() {
    let (score, findings) = score_quality(&bare_view(), &Viewport { width: 10, height: 10 });
    assert_eq!(score, 300_000);
    assert!(score <= 1_000_000);
    assert_eq!(findings.len(), 3);
    assert_eq!(findings[0].severity, FindingSeverity::Warning);
    assert_eq!(findings[0].finding_type, QualityFindingType::MissingHierarchy);
    assert_eq!(
        findings[0].message,
        "No DOM or Figma metadata available; quality scoring is limited to the screenshot."
    );
    assert_eq!(findings[1].severity, FindingSeverity::Info);
    assert_eq!(findings[1].finding_type, QualityFindingType::AlignmentInconsistent);
    assert_eq!(
        findings[1].message,
        "Not enough elements to assess alignment (need 3+ with bounding boxes)."
    );
    assert_eq!(findings[2].severity, FindingSeverity::Info);
    assert_eq!(findings[2].finding_type, QualityFindingType::LowContrast);
    assert_eq!(
        findings[2].message,
        "Contrast heuristic not implemented yet (see design-parity-checker-vqg)."
    );
}

#[test]
fn recognised_text_adds_to_the_score() {
    let mut view = bare_view();
    view.ocr_blocks = Some(Vec::new());
    assert_eq!(score_quality(&view, &VIEWPORT).0, 300_000);
    view.ocr_blocks = Some(vec![OcrBlock {
        text: "Hello".into(),
        bounding_box: bbox(0, 0, 1, 1),
        confidence: Some(900_000),
    }]);
    assert_eq!(score_quality(&view, &VIEWPORT).0, 330_000);
}

#[test]
fn text_and_headings_raise_the_score() {
    let nodes = vec![
        node(0, "H1", Some("Title"), bbox(0, 0, 0, 0)),
        node(1, "p", Some("   "), bbox(0, 0, 0, 0)),
        node(2, "p", Some("Body"), bbox(0, 0, 0, 0)),
    ];
    let (score, findings) = score_quality(&view_with_nodes(nodes), &VIEWPORT);
    // 0.4 + 0.15 + 0.25 * 2/3 + 0.05
    assert_eq!(score, 766_666);
    assert!(!has_type(&findings, QualityFindingType::MissingHierarchy));
}

#[test]
fn missing_text_and_headings_are_reported_in_order() {
    let (_, findings) = score_quality(&view_with_nodes(Vec::new()), &VIEWPORT);
    assert_eq!(findings[0].message, "No textual content detected; page may lack hierarchy.");
    assert_eq!(
        findings[1].message,
        "No headings detected (h1-h3); add hierarchy for scannability."
    );
    assert_eq!(findings[0].finding_type, QualityFindingType::MissingHierarchy);
    assert_eq!(findings[1].finding_type, QualityFindingType::MissingHierarchy);
}

#[test]
fn figma_structure_is_scored_when_there_is_no_dom() {
    let figma_node = |id: &str, text: Option<&str>| FigmaNode {
        id: id.into(),
        name: None,
        node_type: "TEXT".into(),
        bounding_box: bbox(0, 0, 0, 0),
        text: text.map(|t| t.to_string()),
        typography: None,
        fills: Vec::new(),
        children: Vec::new(),
    };
    let mut view = bare_view();
    view.kind = ResourceKind::Figma;
    view.figma_tree = Some(FigmaSnapshot {
        file_key: "FILE".into(),
        node_id: "1:2".into(),
        name: None,
        nodes: vec![figma_node("a", Some("Buy")), figma_node("b", None)],
    });
    // 0.4 + 0.15 + 0.2 * 1/2
    assert_eq!(score_quality(&view, &VIEWPORT).0, 650_000);
    view.figma_tree.as_mut().unwrap().nodes[0].text = Some("\n\t".into());
    let (score, findings) = score_quality(&view, &VIEWPORT);
    assert_eq!(score, 500_000);
    assert_eq!(findings[0].message, "Figma snapshot has no text nodes; add copy for hierarchy.");
}

#[test]
fn text_and_heading_tests_ignore_case_and_blank_text() {
    let heading = node(0, "h3", Some(" \u{2003} "), bbox(0, 0, 0, 0));
    assert!(is_heading(&heading));
    assert!(!node_has_text(&heading));
    let deep = node(1, "h4", Some(" x "), bbox(0, 0, 0, 0));
    assert!(!is_heading(&deep));
    assert!(node_has_text(&deep));
    assert!(is_heading(&node(2, "H2", None, bbox(0, 0, 0, 0))));
    assert!(!node_has_text(&node(3, "p", None, bbox(0, 0, 0, 0))));
}

#[test]
fn alignment_counts_columns_and_outliers() {
    // tolerance at 800 px is 8 px, the least width 8 px
    let px = 1_000_000;
    let view = view_with_boxes(vec![
        bbox(100 * px, 0, 50 * px, 0),
        bbox(300 * px, 0, 50 * px, 0),
        bbox(104 * px, 0, 50 * px, 0),
        bbox(102 * px, 0, 50 * px, 0),
        bbox(303 * px, 0, 50 * px, 0),
        bbox(500 * px, 0, 7 * px, 0),
    ]);
    let (score, finding) = alignment_heuristic(&view, &VIEWPORT);
    assert_eq!(score, Some(1_000_000));
    assert_eq!(finding.severity, FindingSeverity::Info);
    assert_eq!(finding.finding_type, QualityFindingType::AlignmentInconsistent);
    assert_eq!(finding.message, "0 of 5 elements deviate from 2 column(s) (tolerance ~8px).");
}

#[test]
fn alignment_counts_an_edge_that_the_mean_drifted_away_from() {
    // Each edge lies within 4 px of the mean of those before it, so all join
    // one column. Its mean ends at 43/7, more than 6 px from the first edge.
    let px = 1_000_000;
    let edges = [9, 0, 4, 6, 7, 8, 9];
    let boxes = edges.iter().map(|x| bbox(x * px, 0, 10 * px, 0)).collect();
    let viewport = Viewport { width: 400, height: 300 };
    let (score, finding) = alignment_heuristic(&view_with_boxes(boxes), &viewport);
    assert_eq!(score, Some(857_142));
    assert_eq!(finding.severity, FindingSeverity::Info);
    assert_eq!(finding.message, "1 of 7 elements deviate from 1 column(s) (tolerance ~4px).");
}

#[test]
fn alignment_needs_three_wide_boxes() {
    let px = 1_000_000;
    let view = view_with_boxes(vec![
        bbox(0, 0, 50 * px, 0),
        bbox(10 * px, 0, 50 * px, 0),
        bbox(20 * px, 0, 3 * px, 0),
    ]);
    let (score, finding) = alignment_heuristic(&view, &VIEWPORT);
    assert_eq!(score, None);
    assert_eq!(finding.severity, FindingSeverity::Info);
}

#[test]
fn alignment_tolerance_follows_the_viewport_within_bounds() {
    let px = 1_000_000;
    let boxes: Vec<BoundingBox> = (0..3).map(|i| bbox(i * 100 * px, 0, 30 * px, 0)).collect();
    let message = |width: u32| {
        alignment_heuristic(&view_with_boxes(boxes.clone()), &Viewport { width, height: 1 }).1.message
    };
    assert_eq!(message(100), "0 of 3 elements deviate from 3 column(s) (tolerance ~4px).");
    assert_eq!(message(1250), "0 of 3 elements deviate from 3 column(s) (tolerance ~12px).");
    assert_eq!(message(1350), "0 of 3 elements deviate from 3 column(s) (tolerance ~14px).");
    assert_eq!(message(5000), "0 of 3 elements deviate from 3 column(s) (tolerance ~24px).");
}

#[test]
fn clusters_keep_sum_count_and_ends() {
    let clusters = cluster_positions(&vec![10, 12, 14, 100, 101], 4);
    assert_eq!(clusters.len(), 2);
    assert_eq!((clusters[0].sum, clusters[0].count), (36, 3));
    assert_eq!((clusters[0].first, clusters[0].last), (10, 14));
    assert_eq!((clusters[1].sum, clusters[1].count), (201, 2));
    assert!(clusters[0].sum * (clusters[1].count as i128) <= clusters[1].sum * (clusters[0].count as i128));
    assert!(cluster_positions(&Vec::new(), 4).is_empty());
}

#[test]
fn alignment_bonus_is_fifteen_hundredths_of_the_share() {
    let px = 1_000_000;
    let nodes = vec![
        node(0, "h1", Some("a"), bbox(10 * px, 0, 100 * px, 0)),
        node(1, "p", Some("b"), bbox(10 * px, 0, 100 * px, 0)),
        node(2, "p", Some("c"), bbox(11 * px, 0, 100 * px, 0)),
    ];
    let (score, findings) = score_quality(&view_with_nodes(nodes), &VIEWPORT);
    // 0.4 + 0.15 + 0.25 + 0.05 + 0.15
    assert_eq!(score, 1_000_000);
    assert_eq!(findings.len(), 2);
}
