use dpc_lib::geometry::BoundingBox;
use dpc_lib::metrics::content::content_metric;
use dpc_lib::metrics::content::normalize_text;
use dpc_lib::metrics::layout::boxes_resized;
use dpc_lib::metrics::layout::boxes_shifted;
use dpc_lib::metrics::layout::layout_metric;
use dpc_lib::metrics::matching::boxes_overlap_enough;
use dpc_lib::metrics::matching::collect_elements;
use dpc_lib::metrics::matching::pair_elements;
use dpc_lib::metrics::needs_rasters;
use dpc_lib::metrics::run_structural_metrics;
use dpc_lib::metrics::with_raster_metrics;
use dpc_lib::types::ColorMetric;
use dpc_lib::types::ContentMetric;
use dpc_lib::types::MetricScores;
use dpc_lib::types::PixelMetric;
use dpc_lib::metrics::scoring::calculate_combined_score;
use dpc_lib::metrics::scoring::ScoreWeights;
use dpc_lib::metrics::typography::compare_styles;
use dpc_lib::metrics::typography::parse_weight;
use dpc_lib::metrics::typography::typography_metric;
use dpc_lib::metrics::MetricKind;
use dpc_lib::types::ComputedStyle;
use dpc_lib::types::DomNode;
use dpc_lib::types::DomSnapshot;
use dpc_lib::types::FigmaNode;
use dpc_lib::types::FigmaSnapshot;
use dpc_lib::types::LayoutDiffKind;
use dpc_lib::types::NormalizedView;
use dpc_lib::types::ResourceKind;
use dpc_lib::types::TypographyIssue;
use dpc_lib::types::TypographyStyle;

const PX: i64 = 1_000_000;

fn px_box(x: i64, y: i64, width: i64, height: i64) -> BoundingBox {
    BoundingBox { x: x * PX, y: y * PX, width: width * PX, height: height * PX }
}

fn node(id: &str, tag: &str, text: Option<&str>, bounding_box: BoundingBox) -> DomNode {
    DomNode {
        id: id.to_string(),
        tag: tag.to_string(),
        children: Vec::new(),
        parent: None,
        attributes: Vec::new(),
        text: text.map(String::from),
        bounding_box,
        computed_style: None,
    }
}

fn styled(id: &str, bounding_box: BoundingBox, family: &str, size: i64, weight: &str, line: i64) -> DomNode {
    let mut n = node(id, "p", None, bounding_box);
    n.computed_style = Some(ComputedStyle {
        font_family: Some(family.to_string()),
        font_size: Some(size),
        font_weight: Some(weight.to_string()),
        line_height: Some(line),
        ..Default::default()
    });
    n
}

fn dom_view(nodes: Vec<DomNode>) -> NormalizedView {
    NormalizedView {
        kind: ResourceKind::Url,
        screenshot_path: "page.png".into(),
        width: 100,
        height: 100,
        dom: Some(DomSnapshot { url: None, title: None, nodes }),
        figma_tree: None,
        ocr_blocks: None,
    }
}

fn figma_view(nodes: Vec<FigmaNode>) -> NormalizedView {
    NormalizedView {
        kind: ResourceKind::Figma,
        screenshot_path: "frame.png".into(),
        width: 200,
        height: 50,
        dom: None,
        figma_tree: Some(FigmaSnapshot { file_key: "F".into(), node_id: "1:2".into(), name: None, nodes }),
        ocr_blocks: None,
    }
}

fn figma_node(id: &str, node_type: &str, text: Option<&str>, bounding_box: BoundingBox) -> FigmaNode {
    FigmaNode {
        id: id.into(),
        name: None,
        node_type: node_type.into(),
        bounding_box,
        text: text.map(String::from),
        typography: None,
        fills: Vec::new(),
        children: Vec::new(),
    }
}

fn image_view() -> NormalizedView {
    NormalizedView {
        kind: ResourceKind::Image,
        screenshot_path: "shot.png".into(),
        width: 100,
        height: 100,
        dom: None,
        figma_tree: None,
        ocr_blocks: None,
    }
}

fn style(family: Option<&str>, size: Option<i64>, weight: Option<&str>, line: Option<i64>) -> TypographyStyle {
    TypographyStyle {
        font_family: family.map(String::from),
        font_size: size,
        font_weight: weight.map(String::from),
        line_height: line,
    }
}

#[test]
fn text_is_trimmed_collapsed_and_lower_cased() {
    assert_eq!(normalize_text("  Hello \n\t World  "), "hello world");
    assert_eq!(normalize_text("A\u{00A0}b\u{2003}\u{2003}C"), "a b c");
    assert_eq!(normalize_text(""), "");
    assert_eq!(normalize_text(" \t "), "");
    assert_eq!(normalize_text("x"), "x");
    assert_eq!(normalize_text("ÄB"), "Äb");
}

#[test]
fn content_score_is_the_jaccard_index_of_the_text_sets() {
    let b = px_box(0, 0, 1, 1);
    let reference = dom_view(vec![
        node("a", "h1", Some("Hello  World"), b),
        node("b", "a", Some("  Buy\tNow "), b),
        node("c", "p", Some("hello world"), b),
        node("d", "p", Some("  "), b),
        node("e", "div", None, b),
    ]);
    let implementation =
        dom_view(vec![node("x", "h1", Some("HELLO WORLD"), b), node("y", "a", Some("Sign up"), b)]);
    let m = content_metric(&reference, &implementation).unwrap();
    assert_eq!(m.score, 333_333);
    assert_eq!(m.missing_text, vec!["buy now"]);
    assert_eq!(m.extra_text, vec!["sign up"]);

    let same = content_metric(&reference, &reference).unwrap();
    assert_eq!((same.score, same.missing_text.len(), same.extra_text.len()), (1_000_000, 0, 0));
}

#[test]
fn content_of_two_views_without_text_matches_fully() {
    let m = content_metric(&dom_view(vec![]), &dom_view(vec![node("a", "div", None, px_box(0, 0, 1, 1))])).unwrap();
    assert_eq!(m.score, 1_000_000);
    assert!(m.missing_text.is_empty() && m.extra_text.is_empty());
}

#[test]
fn content_with_nothing_in_common_scores_nothing() {
    let b = px_box(0, 0, 1, 1);
    let m = content_metric(
        &dom_view(vec![node("a", "p", Some("one"), b), node("b", "p", Some("two"), b)]),
        &dom_view(vec![]),
    )
    .unwrap();
    assert_eq!(m.score, 0);
    assert_eq!(m.missing_text, vec!["one", "two"]);
}

#[test]
fn content_reads_only_text_nodes_of_a_frame() {
    let b = px_box(0, 0, 1, 1);
    let frame = figma_view(vec![
        figma_node("1", "TEXT", Some("Buy now"), b),
        figma_node("2", "FRAME", Some("Layer name"), b),
        figma_node("3", "text", Some("lower-case type"), b),
        figma_node("4", "TEXT", None, b),
    ]);
    let page = dom_view(vec![node("a", "button", Some("buy  NOW"), b)]);
    let m = content_metric(&frame, &page).unwrap();
    assert_eq!(m.score, 1_000_000);
    let back = content_metric(&page, &frame).unwrap();
    assert_eq!(back.score, 1_000_000);
}

#[test]
fn content_needs_structure_on_both_sides() {
    assert!(content_metric(&image_view(), &dom_view(vec![])).is_none());
    assert!(content_metric(&dom_view(vec![]), &image_view()).is_none());
    assert!(content_metric(&image_view(), &image_view()).is_none());
}

#[test]
fn rectangles_pair_when_they_share_half_of_their_union() {
    let a = px_box(0, 0, 10, 10);
    assert!(boxes_overlap_enough(&a, &a));
    // shared 50, together 150
    assert!(!boxes_overlap_enough(&a, &px_box(5, 0, 10, 10)));
    // shared 70, together 130
    assert!(boxes_overlap_enough(&a, &px_box(3, 0, 10, 10)));
    // shared 50, together 100: exactly half
    assert!(boxes_overlap_enough(&a, &px_box(0, 0, 10, 5)));
    assert!(!boxes_overlap_enough(&a, &px_box(10, 0, 10, 10)));
    assert!(!boxes_overlap_enough(&px_box(0, 0, 0, 10), &px_box(0, 0, 0, 10)));
    assert!(!boxes_overlap_enough(&px_box(0, 0, -10, 10), &a));
}

#[test]
fn shifts_and_size_changes_have_thresholds() {
    let unit = |x: i64, y: i64, w: i64, h: i64| BoundingBox { x, y, width: w, height: h };
    let a = unit(100_000, 100_000, 200_000, 200_000);
    assert!(!boxes_shifted(&a, &a));
    assert!(!boxes_shifted(&a, &unit(110_000, 100_000, 200_000, 200_000)));
    assert!(boxes_shifted(&a, &unit(110_001, 100_000, 200_000, 200_000)));
    assert!(!boxes_shifted(&a, &unit(106_000, 108_000, 200_000, 200_000)));
    assert!(boxes_shifted(&a, &unit(106_000, 108_001, 200_000, 200_000)));
    assert!(boxes_shifted(&a, &unit(100_000, 100_000, 220_001, 200_000)));

    assert!(!boxes_resized(&a, &unit(0, 0, 220_000, 180_000)));
    assert!(boxes_resized(&a, &unit(0, 0, 220_001, 200_000)));
    assert!(boxes_resized(&a, &unit(0, 0, 200_000, 179_999)));
    assert!(boxes_resized(&unit(0, 0, 0, 0), &unit(0, 0, 1, 0)));
    assert!(!boxes_resized(&unit(0, 0, 0, 0), &unit(9, 9, 0, 0)));
}

#[test]
fn elements_are_given_as_fractions_of_the_raster() {
    let view = figma_view(vec![figma_node("n", "FRAME", None, px_box(50, 10, 100, 25))]);
    let elements = collect_elements(&view).unwrap();
    assert_eq!(elements.len(), 1);
    assert_eq!(elements[0].kind, "FRAME");
    assert_eq!(
        elements[0].bounding_box,
        BoundingBox { x: 250_000, y: 200_000, width: 500_000, height: 500_000 }
    );
    let odd = dom_view(vec![node("n", "div", None, BoundingBox { x: -1, y: 199, width: -100, height: 100 })]);
    assert_eq!(
        collect_elements(&odd).unwrap()[0].bounding_box,
        BoundingBox { x: -1, y: 1, width: -1, height: 1 }
    );
    assert!(collect_elements(&image_view()).is_none());
    let mut empty = dom_view(vec![]);
    empty.height = 0;
    assert!(collect_elements(&empty).is_none());
}

#[test]
fn each_reference_element_takes_the_first_free_partner() {
    let refs = collect_elements(&dom_view(vec![
        node("r0", "div", None, px_box(0, 0, 10, 10)),
        node("r1", "DIV", None, px_box(1, 0, 10, 10)),
        node("r2", "div", None, px_box(0, 1, 10, 10)),
        node("r3", "p", None, px_box(50, 50, 10, 10)),
    ]))
    .unwrap();
    let others = collect_elements(&dom_view(vec![
        node("o0", "span", None, px_box(0, 0, 10, 10)),
        node("o1", "div", None, px_box(0, 0, 10, 10)),
        node("o2", "div", None, px_box(1, 1, 10, 10)),
        node("o3", "p", None, px_box(80, 80, 10, 10)),
    ]))
    .unwrap();
    let (pairing, used) = pair_elements(&refs, &others);
    assert_eq!(pairing, vec![Some(1), Some(2), None, None]);
    assert_eq!(used, vec![false, true, true, false]);
}

#[test]
fn layout_of_equal_views_is_perfect() {
    let view = dom_view(vec![node("a", "div", None, px_box(10, 10, 20, 20)), node("b", "p", None, px_box(50, 50, 10, 10))]);
    let m = layout_metric(&view, &view).unwrap();
    assert_eq!(m.score, 1_000_000);
    assert!(m.diff_regions.is_empty());
    let none = layout_metric(&dom_view(vec![]), &dom_view(vec![])).unwrap();
    assert_eq!(none.score, 1_000_000);
}

#[test]
fn layout_reports_missing_extra_and_moved_elements() {
    let reference = dom_view(vec![
        node("a", "div", None, px_box(10, 10, 20, 20)),
        node("b", "p", None, px_box(50, 50, 10, 10)),
        node("d", "img", None, px_box(70, 0, 10, 10)),
        node("e", "img", None, px_box(70, 20, 10, 10)),
    ]);
    let implementation = dom_view(vec![
        node("a2", "div", None, px_box(10, 12, 20, 20)),
        node("c", "span", None, px_box(50, 50, 10, 10)),
        node("d", "img", None, px_box(70, 0, 10, 10)),
        node("e", "img", None, px_box(70, 20, 10, 10)),
    ]);
    let m = layout_metric(&reference, &implementation).unwrap();
    let found: Vec<(LayoutDiffKind, Option<&str>, Option<&str>, i64, i64)> = m
        .diff_regions
        .iter()
        .map(|r| (r.kind, r.element_type.as_deref(), r.label.as_deref(), r.x, r.y))
        .collect();
    assert_eq!(
        found,
        vec![
            (LayoutDiffKind::PositionShift, Some("div"), Some("a"), 100_000, 100_000),
            (LayoutDiffKind::MissingElement, Some("p"), Some("b"), 500_000, 500_000),
            (LayoutDiffKind::ExtraElement, Some("span"), Some("c"), 500_000, 500_000),
        ]
    );
    // 1 - (0.5 + 1 + 1) / 4
    assert_eq!(m.score, 375_000);
}

#[test]
fn layout_reports_a_change_of_size_and_never_scores_below_nothing() {
    let reference = dom_view(vec![node("a", "div", None, px_box(0, 0, 20, 20))]);
    let implementation = dom_view(vec![node("a", "div", None, px_box(0, 0, 23, 20))]);
    let m = layout_metric(&reference, &implementation).unwrap();
    let kinds: Vec<LayoutDiffKind> = m.diff_regions.iter().map(|r| r.kind).collect();
    assert_eq!(kinds, vec![LayoutDiffKind::PositionShift, LayoutDiffKind::SizeChange]);
    assert_eq!(m.score, 0);
    assert_eq!((m.diff_regions[1].width, m.diff_regions[1].height), (200_000, 200_000));

    let apart = layout_metric(&reference, &dom_view(vec![node("z", "p", None, px_box(0, 0, 20, 20))])).unwrap();
    assert_eq!(apart.score, 0);
    assert_eq!(apart.diff_regions.len(), 2);
}

#[test]
fn layout_needs_structure_and_a_raster_on_both_sides() {
    assert!(layout_metric(&image_view(), &dom_view(vec![])).is_none());
    assert!(layout_metric(&dom_view(vec![]), &image_view()).is_none());
    let mut flat = dom_view(vec![]);
    flat.width = 0;
    assert!(layout_metric(&flat, &dom_view(vec![])).is_none());
}

#[test]
fn font_weights_are_read_from_names_and_numbers() {
    assert_eq!(parse_weight("normal"), Some(400));
    assert_eq!(parse_weight(" Bold "), Some(700));
    assert_eq!(parse_weight("700"), Some(700));
    assert_eq!(parse_weight("0950"), Some(950));
    assert_eq!(parse_weight("9999"), Some(9999));
    assert_eq!(parse_weight("10000"), None);
    assert_eq!(parse_weight("bolder"), None);
    assert_eq!(parse_weight("4 0"), None);
    assert_eq!(parse_weight("-400"), None);
    assert_eq!(parse_weight(""), None);
}

#[test]
fn styles_differ_by_family_size_weight_and_line_height() {
    let a = style(Some("'Inter'"), Some(16 * PX), Some("400"), Some(20 * PX));
    assert!(compare_styles(&a, &a).is_empty());
    assert!(compare_styles(&a, &style(Some(" \"INTER\" "), Some(17 * PX), Some("normal"), Some(22 * PX))).is_empty());
    assert!(compare_styles(&a, &style(Some("In\"ter"), Some(15 * PX), Some("499"), Some(18 * PX))).is_empty());
    assert_eq!(
        compare_styles(&a, &style(Some("Arial"), Some(17 * PX + 1), Some("bold"), Some(22 * PX + 1))),
        vec![
            TypographyIssue::FontFamilyMismatch,
            TypographyIssue::FontSizeDiff,
            TypographyIssue::FontWeightDiff,
            TypographyIssue::LineHeightDiff,
        ]
    );
    assert_eq!(
        compare_styles(&a, &style(None, None, Some("500"), Some(18 * PX - 1))),
        vec![TypographyIssue::FontWeightDiff, TypographyIssue::LineHeightDiff]
    );
    assert!(compare_styles(&a, &style(Some("inter"), None, Some("heavy"), None)).is_empty());
    assert!(compare_styles(&style(None, None, None, None), &a).is_empty());
}

#[test]
fn typography_score_is_the_share_of_comparisons_without_difference() {
    let reference = dom_view(vec![
        styled("h", px_box(0, 0, 50, 10), "Inter", 32 * PX, "700", 40 * PX),
        styled("p", px_box(0, 20, 50, 30), "Inter", 16 * PX, "400", 24 * PX),
        node("img", "img", None, px_box(60, 0, 30, 30)),
        styled("gone", px_box(0, 80, 10, 10), "Inter", 16 * PX, "400", 24 * PX),
    ]);
    let implementation = dom_view(vec![
        styled("h2", px_box(0, 0, 50, 10), "\"inter\"", 30 * PX, "bold", 40 * PX),
        styled("p2", px_box(0, 20, 50, 30), "Georgia", 16 * PX, "300", 27 * PX),
        node("img", "img", None, px_box(60, 0, 30, 30)),
    ]);
    let m = typography_metric(&reference, &implementation).unwrap();
    // two styled pairs, four differences among eight comparisons
    assert_eq!(m.score, 500_000);
    assert_eq!(m.diffs.len(), 2);
    assert_eq!(m.diffs[0].element_id_ref.as_deref(), Some("h"));
    assert_eq!(m.diffs[0].element_id_impl.as_deref(), Some("h2"));
    assert_eq!(m.diffs[0].issues, vec![TypographyIssue::FontSizeDiff]);
    assert_eq!(
        m.diffs[1].issues,
        vec![
            TypographyIssue::FontFamilyMismatch,
            TypographyIssue::FontWeightDiff,
            TypographyIssue::LineHeightDiff,
        ]
    );
    assert!(m.diffs[1].details.is_none());

    let same = typography_metric(&reference, &reference).unwrap();
    assert_eq!((same.score, same.diffs.len()), (1_000_000, 0));
}

#[test]
fn typography_needs_a_pair_with_style_on_both_sides() {
    let plain = dom_view(vec![node("a", "p", None, px_box(0, 0, 10, 10))]);
    let with_style = dom_view(vec![styled("a", px_box(0, 0, 10, 10), "Inter", 16 * PX, "400", 24 * PX)]);
    assert!(typography_metric(&plain, &with_style).is_none());
    assert!(typography_metric(&with_style, &plain).is_none());
    assert!(typography_metric(&with_style, &image_view()).is_none());
    let elsewhere = dom_view(vec![styled("a", px_box(50, 50, 10, 10), "Inter", 16 * PX, "400", 24 * PX)]);
    assert!(typography_metric(&with_style, &elsewhere).is_none());
}

#[test]
fn raster_metrics_fill_their_slots_only_where_selected() {
    let pixel = || PixelMetric { score: 700_000, diff_regions: vec![] };
    let color = || ColorMetric { score: 800_000, diffs: vec![] };
    let mut base = MetricScores::empty();
    base.content = Some(ContentMetric { score: 1, missing_text: vec![], extra_text: vec![] });
    let both = with_raster_metrics(base.clone(), &vec![MetricKind::Color, MetricKind::Pixel], pixel(), color());
    assert_eq!(both.pixel.unwrap().score, 700_000);
    assert_eq!(both.color.unwrap().score, 800_000);
    assert_eq!(both.content.unwrap().score, 1);
    assert!(both.layout.is_none() && both.typography.is_none());
    let one = with_raster_metrics(base.clone(), &vec![MetricKind::Pixel, MetricKind::Content], pixel(), color());
    assert!(one.pixel.is_some() && one.color.is_none() && one.content.is_some());
    let none = with_raster_metrics(base.clone(), &vec![MetricKind::Layout], pixel(), color());
    assert!(none.pixel.is_none() && none.color.is_none() && none.content.is_some());
    assert!(needs_rasters(&vec![MetricKind::Layout, MetricKind::Color]));
    assert!(needs_rasters(&vec![MetricKind::Pixel]));
    assert!(!needs_rasters(&vec![MetricKind::Layout, MetricKind::Typography, MetricKind::Content]));
    assert!(!needs_rasters(&Vec::new()));
}

#[test]
fn only_selected_metrics_with_enough_input_fill_their_slot() {
    let b = px_box(0, 0, 10, 10);
    let reference = dom_view(vec![node("a", "p", Some("Hi"), b)]);
    let implementation = dom_view(vec![node("a", "p", Some("Ho"), b)]);
    let all = vec![
        MetricKind::Pixel,
        MetricKind::Layout,
        MetricKind::Typography,
        MetricKind::Color,
        MetricKind::Content,
    ];
    let scores = run_structural_metrics(&all, &reference, &implementation);
    assert!(scores.pixel.is_none() && scores.color.is_none());
    assert_eq!(scores.layout.as_ref().unwrap().score, 1_000_000);
    assert!(scores.typography.is_none(), "no element carries a style");
    assert_eq!(scores.content.as_ref().unwrap().score, 0);
    // (0.25 * 1 + 0.10 * 0) / 0.35
    assert_eq!(calculate_combined_score(&scores, &ScoreWeights::default()), 714_285);

    let only = run_structural_metrics(&vec![MetricKind::Content], &reference, &implementation);
    assert!(only.layout.is_none() && only.typography.is_none());
    assert!(only.content.is_some());

    let images = run_structural_metrics(&all, &image_view(), &image_view());
    assert!(images.layout.is_none() && images.typography.is_none() && images.content.is_none());
    assert!(run_structural_metrics(&Vec::new(), &reference, &implementation).content.is_none());
}
