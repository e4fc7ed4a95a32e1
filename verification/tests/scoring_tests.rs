use dpc_lib::commands::compare_exit_code;
use dpc_lib::commands::compare_report;
use dpc_lib::commands::generate_code_report;
use dpc_lib::commands::should_keep_artifacts;
use dpc_lib::metrics::effective_metrics;
use dpc_lib::metrics::parse_metric_kinds;
use dpc_lib::metrics::scoring::calculate_combined_score;
use dpc_lib::metrics::scoring::ScoreWeights;
use dpc_lib::metrics::MetricKind;
use dpc_lib::error::DpcError;
use dpc_lib::geometry::Viewport;
use dpc_lib::output::ResourceDescriptor;
use dpc_lib::summary::generate_summary;
use dpc_lib::types::ColorDiff;
use dpc_lib::types::ColorDiffKind;
use dpc_lib::types::ColorMetric;
use dpc_lib::types::ContentMetric;
use dpc_lib::types::DiffSeverity;
use dpc_lib::types::LayoutDiffKind;
use dpc_lib::types::LayoutDiffRegion;
use dpc_lib::types::LayoutMetric;
use dpc_lib::types::MetricScores;
use dpc_lib::types::PixelDiffReason;
use dpc_lib::types::PixelDiffRegion;
use dpc_lib::types::PixelMetric;
use dpc_lib::types::ResourceKind;
use dpc_lib::types::TypographyDiff;
use dpc_lib::types::TypographyIssue;
use dpc_lib::types::TypographyMetric;

fn pixel(score: u32) -> Option<PixelMetric> {
    Some(PixelMetric { score, diff_regions: Vec::new() })
}

fn color(score: u32) -> Option<ColorMetric> {
    Some(ColorMetric { score, diffs: Vec::new() })
}

fn layout_region(kind: LayoutDiffKind) -> LayoutDiffRegion {
    LayoutDiffRegion { x: 0, y: 0, width: 100_000, height: 100_000, kind, element_type: None, label: None }
}

fn pixel_region(severity: DiffSeverity) -> PixelDiffRegion {
    PixelDiffRegion {
        x: 0,
        y: 0,
        width: 500_000,
        height: 500_000,
        severity,
        reason: PixelDiffReason::PixelChange,
    }
}

fn typo_diff(issues: Vec<TypographyIssue>) -> TypographyDiff {
    TypographyDiff { element_id_ref: None, element_id_impl: None, issues, details: None }
}

fn image(value: &str) -> ResourceDescriptor {
    ResourceDescriptor { kind: ResourceKind::Image, value: value.to_string() }
}

#[test]
fn default_weights_are_the_documented_ones() {
    let w = ScoreWeights::default();
    assert_eq!(
        (w.pixel, w.layout, w.typography, w.color, w.content),
        (350_000, 250_000, 150_000, 150_000, 100_000)
    );
    assert_eq!(w.sum(), 1_000_000);
}

#[test]
fn weights_sum_without_overflow() {
    let w = ScoreWeights {
        pixel: u32::MAX,
        layout: u32::MAX,
        typography: u32::MAX,
        color: u32::MAX,
        content: u32::MAX,
    };
    assert_eq!(w.sum(), 5 * (u32::MAX as u64));
}

#[test]
fn combined_score_of_nothing_is_zero() {
    assert_eq!(calculate_combined_score(&MetricScores::empty(), &ScoreWeights::default()), 0);
}

#[test]
fn combined_score_renormalizes_over_present_slots() {
    let mut scores = MetricScores::empty();
    scores.pixel = pixel(900_000);
    scores.color = color(500_000);
    // (0.35 * 0.9 + 0.15 * 0.5) / 0.5
    assert_eq!(calculate_combined_score(&scores, &ScoreWeights::default()), 780_000);
    scores.content = Some(ContentMetric { score: 1_000_000, missing_text: vec![], extra_text: vec![] });
    // (0.315 + 0.075 + 0.1) / 0.6, rounded down
    assert_eq!(calculate_combined_score(&scores, &ScoreWeights::default()), 816_666);
}

#[test]
fn combined_score_ignores_slots_of_weight_zero_and_absent_weight() {
    let mut scores = MetricScores::empty();
    scores.pixel = pixel(200_000);
    scores.color = color(800_000);
    let only_color = ScoreWeights { pixel: 0, layout: 9, typography: 9, color: 7, content: 9 };
    assert_eq!(calculate_combined_score(&scores, &only_color), 800_000);
    let none = ScoreWeights { pixel: 0, layout: 5, typography: 5, color: 0, content: 5 };
    assert_eq!(calculate_combined_score(&scores, &none), 0);
}

#[test]
fn combined_score_stays_in_the_unit_interval_at_the_extremes() {
    let mut scores = MetricScores::empty();
    scores.pixel = pixel(1_000_000);
    scores.layout = Some(LayoutMetric { score: 1_000_000, diff_regions: vec![] });
    scores.typography = Some(TypographyMetric { score: 1_000_000, diffs: vec![] });
    scores.color = color(1_000_000);
    scores.content = Some(ContentMetric { score: 1_000_000, missing_text: vec![], extra_text: vec![] });
    let heavy = ScoreWeights {
        pixel: u32::MAX,
        layout: u32::MAX,
        typography: 1,
        color: u32::MAX,
        content: 0,
    };
    assert_eq!(calculate_combined_score(&scores, &heavy), 1_000_000);
    scores.pixel = pixel(0);
    scores.color = color(0);
    let r = calculate_combined_score(&scores, &heavy);
    assert!(r <= 1_000_000);
    assert_eq!(r, 333_333);
}

#[test]
fn summary_of_a_clean_pass_is_the_verdict_alone() {
    let mut scores = MetricScores::empty();
    scores.pixel = pixel(1_000_000);
    scores.color = color(1_000_000);
    let summary = generate_summary(&scores, 1_000_000, 950_000);
    assert_eq!(
        summary.top_issues,
        vec!["Design parity check passed (100.0% similarity, threshold: 95.0%)"]
    );
}

#[test]
fn summary_passes_exactly_at_the_threshold() {
    let summary = generate_summary(&MetricScores::empty(), 950_000, 950_000);
    assert_eq!(
        summary.top_issues,
        vec!["Design parity check passed (95.0% similarity, threshold: 95.0%)"]
    );
    let summary = generate_summary(&MetricScores::empty(), 949_999, 950_000);
    assert_eq!(
        summary.top_issues,
        vec!["Design parity check failed (95.0% similarity, threshold: 95.0%)"]
    );
}

#[test]
fn summary_lists_every_kind_of_issue_in_order() {
    let scores = MetricScores {
        pixel: Some(PixelMetric {
            score: 745_000,
            diff_regions: vec![
                pixel_region(DiffSeverity::Major),
                pixel_region(DiffSeverity::Minor),
                pixel_region(DiffSeverity::Major),
            ],
        }),
        layout: Some(LayoutMetric {
            score: 500_000,
            diff_regions: vec![
                layout_region(LayoutDiffKind::MissingElement),
                layout_region(LayoutDiffKind::PositionShift),
                layout_region(LayoutDiffKind::ExtraElement),
                layout_region(LayoutDiffKind::MissingElement),
                layout_region(LayoutDiffKind::SizeChange),
                layout_region(LayoutDiffKind::MissingElement),
            ],
        }),
        typography: Some(TypographyMetric {
            score: 0,
            diffs: vec![
                typo_diff(vec![TypographyIssue::FontSizeDiff, TypographyIssue::FontFamilyMismatch]),
                typo_diff(vec![TypographyIssue::LineHeightDiff]),
                typo_diff(vec![TypographyIssue::FontSizeDiff, TypographyIssue::FontSizeDiff]),
            ],
        }),
        color: Some(ColorMetric {
            score: 899_999,
            diffs: vec![ColorDiff {
                kind: ColorDiffKind::PrimaryColorShift,
                ref_color: "#000000".into(),
                impl_color: "#101010".into(),
                delta_e: Some(6_500_000),
            }],
        }),
        content: Some(ContentMetric {
            score: 100_000,
            missing_text: vec!["a".into(), "b".into()],
            extra_text: vec!["c".into()],
        }),
    };
    let summary = generate_summary(&scores, 432_100, 950_000);
    assert_eq!(
        summary.top_issues,
        vec![
            "Design parity check failed (43.2% similarity, threshold: 95.0%)",
            "Pixel differences detected in ~26% of the image",
            "2 major visual difference region(s) found",
            "3 element(s) missing from implementation",
            "1 extra element(s) in implementation",
            "1 element(s) shifted from expected position",
            "1 element(s) have mismatched font families",
            "2 element(s) have incorrect font sizes",
            "1 color difference(s) detected in palette",
            "2 text element(s) missing from implementation",
            "1 extra text element(s) in implementation",
        ]
    );
    assert_eq!(generate_summary(&scores, 432_100, 950_000).top_issues, summary.top_issues);
}

#[test]
fn summary_skips_metrics_that_scored_well() {
    let scores = MetricScores {
        pixel: Some(PixelMetric { score: 900_000, diff_regions: vec![pixel_region(DiffSeverity::Major)] }),
        layout: Some(LayoutMetric {
            score: 900_000,
            diff_regions: vec![layout_region(LayoutDiffKind::MissingElement)],
        }),
        typography: Some(TypographyMetric {
            score: 950_000,
            diffs: vec![typo_diff(vec![TypographyIssue::FontFamilyMismatch])],
        }),
        color: None,
        content: Some(ContentMetric { score: 900_000, missing_text: vec!["a".into()], extra_text: vec![] }),
    };
    assert_eq!(
        generate_summary(&scores, 912_345, 900_000).top_issues,
        vec!["Design parity check passed (91.2% similarity, threshold: 90.0%)"]
    );
}

#[test]
fn summary_counts_major_regions_only_under_a_low_pixel_score() {
    let mut scores = MetricScores::empty();
    scores.pixel =
        Some(PixelMetric { score: 899_999, diff_regions: vec![pixel_region(DiffSeverity::Major)] });
    assert_eq!(
        generate_summary(&scores, 899_999, 900_000).top_issues,
        vec![
            "Design parity check failed (90.0% similarity, threshold: 90.0%)",
            "Pixel differences detected in ~10% of the image",
            "1 major visual difference region(s) found",
        ]
    );
    scores.pixel.as_mut().unwrap().score = 900_000;
    assert_eq!(generate_summary(&scores, 900_000, 900_000).top_issues.len(), 1);
}

#[test]
fn summary_rounds_the_differing_share_half_up() {
    let share = |score: u32| {
        let mut scores = MetricScores::empty();
        scores.pixel = pixel(score);
        generate_summary(&scores, score, 0).top_issues[1].clone()
    };
    assert_eq!(share(0), "Pixel differences detected in ~100% of the image");
    assert_eq!(share(895_000), "Pixel differences detected in ~11% of the image");
    assert_eq!(share(895_001), "Pixel differences detected in ~10% of the image");
    assert_eq!(share(899_999), "Pixel differences detected in ~10% of the image");
}

#[test]
fn compare_report_of_perfect_scores_passes_with_exit_zero() {
    let mut scores = MetricScores::empty();
    scores.pixel = pixel(1_000_000);
    scores.color = color(1_000_000);
    let out = compare_report(
        image("ref.png"),
        image("impl.png"),
        Viewport { width: 4, height: 4 },
        950_000,
        &ScoreWeights::default(),
        scores,
        None,
    );
    assert!(out.passed);
    assert!(out.similarity >= 990_000);
    assert_eq!(compare_exit_code(&out), 0);
    assert_eq!(out.threshold, 950_000);
    assert_eq!(out.ref_resource.value, "ref.png");
    assert_eq!(out.impl_resource.value, "impl.png");
    assert!(out.artifacts.is_none());
    assert_eq!(
        out.summary.unwrap().top_issues,
        vec!["Design parity check passed (100.0% similarity, threshold: 95.0%)"]
    );
}

#[test]
fn compare_report_of_poor_scores_fails_with_exit_one() {
    let mut scores = MetricScores::empty();
    scores.pixel = pixel(0);
    scores.color = color(200_000);
    let out = compare_report(
        image("black.png"),
        image("white.png"),
        Viewport { width: 4, height: 4 },
        950_000,
        &ScoreWeights::default(),
        scores,
        None,
    );
    assert!(!out.passed);
    // (0.35 * 0 + 0.15 * 0.2) / 0.5
    assert_eq!(out.similarity, 60_000);
    assert_eq!(compare_exit_code(&out), 1);
    assert_eq!(
        out.summary.unwrap().top_issues,
        vec![
            "Design parity check failed (6.0% similarity, threshold: 95.0%)",
            "Pixel differences detected in ~100% of the image",
        ]
    );
}

#[test]
fn a_request_for_code_is_answered_with_notes() {
    let out = generate_code_report(
        image("ref.png"),
        Viewport { width: 800, height: 600 },
        "html+tailwind".to_string(),
        Some("out.html".to_string()),
    );
    assert_eq!(out.input.kind, ResourceKind::Image);
    assert_eq!(out.viewport, Some(Viewport { width: 800, height: 600 }));
    assert_eq!(out.stack.as_deref(), Some("html+tailwind"));
    assert_eq!(out.output_path.as_deref(), Some("out.html"));
    assert!(out.code.is_none());
    let notes = out.summary.unwrap().top_issues;
    assert_eq!(notes.len(), 2);
    assert!(notes[0].starts_with("Not implemented: generate-code will return code later;"));
    assert!(notes[1].starts_with("Next steps: keep artifacts"));
}

#[test]
fn artifacts_stay_when_asked_for_or_when_the_directory_was_named() {
    assert!(!should_keep_artifacts(false, false));
    assert!(should_keep_artifacts(true, false));
    assert!(should_keep_artifacts(false, true));
}

#[test]
fn metric_selection_defaults_to_pixel_and_color_without_dom() {
    assert_eq!(effective_metrics(vec![], false, false), vec![MetricKind::Pixel, MetricKind::Color]);
    assert_eq!(effective_metrics(vec![], true, false), vec![]);
    assert_eq!(effective_metrics(vec![], false, true), vec![]);
    assert_eq!(
        effective_metrics(vec![MetricKind::Layout, MetricKind::Layout], false, false),
        vec![MetricKind::Layout, MetricKind::Layout]
    );
}

#[test]
fn metric_kinds_parse_by_name() {
    assert_eq!(parse_metric_kinds(None).unwrap(), vec![]);
    let names = vec!["pixel".to_string(), "Layout".into(), "TYPOGRAPHY".into(), "color".into(), "content".into()];
    assert_eq!(
        parse_metric_kinds(Some(&names)).unwrap(),
        vec![
            MetricKind::Pixel,
            MetricKind::Layout,
            MetricKind::Typography,
            MetricKind::Color,
            MetricKind::Content,
        ]
    );
    assert_eq!(MetricKind::parse("pixels"), None);
    assert_eq!(MetricKind::parse(""), None);
}

#[test]
fn the_first_unknown_metric_kind_fails_the_selection() {
    let names = vec!["pixel".to_string(), "ssim".into(), "nope".into()];
    match parse_metric_kinds(Some(&names)) {
        Err(DpcError::Config(message)) => assert_eq!(
            message,
            "invalid metric kind 'ssim': expected one of pixel, layout, typography, color, content"
        ),
        other => panic!("expected a configuration error, got {:?}", other),
    }
}
