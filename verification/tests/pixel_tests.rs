use dpc_lib::commands::compare_exit_code;
use dpc_lib::commands::compare_report;
use dpc_lib::geometry::Viewport;
use dpc_lib::metrics::pixel::find_diff_regions;
use dpc_lib::metrics::pixel::pixel_metric;
use dpc_lib::metrics::pixel::pixel_similarity;
use dpc_lib::metrics::scoring::ScoreWeights;
use dpc_lib::output::ResourceDescriptor;
use dpc_lib::raster::Raster;
use dpc_lib::raster::Rgba;
use dpc_lib::types::DiffSeverity;
use dpc_lib::types::MetricScores;
use dpc_lib::types::PixelDiffReason;
use dpc_lib::types::PixelDiffRegion;
use dpc_lib::types::ResourceKind;

fn grey(level: u8) -> Rgba {
    Rgba { r: level, g: level, b: level, a: 255 }
}

fn row_of(levels: &[u8]) -> Raster {
    Raster::from_rows(levels.len() as u32, 1, vec![levels.iter().map(|l| grey(*l)).collect()]).unwrap()
}

fn image(value: &str) -> ResourceDescriptor {
    ResourceDescriptor { kind: ResourceKind::Image, value: value.to_string() }
}

fn report(reference: &Raster, implementation: &Raster) -> dpc_lib::output::CompareOutput {
    let mut scores = MetricScores::empty();
    scores.pixel = Some(pixel_metric(reference, implementation));
    compare_report(
        image("ref.png"),
        image("impl.png"),
        Viewport { width: 4, height: 4 },
        950_000,
        &ScoreWeights::default(),
        scores,
        None,
    )
}

#[test]
fn equal_solid_images_pass_with_full_similarity() {
    let img = Raster::from_pixel(4, 4, Rgba { r: 10, g: 20, b: 30, a: 255 });
    let m = pixel_metric(&img, &img);
    assert_eq!(m.score, 1_000_000);
    assert!(m.diff_regions.is_empty());
    let out = report(&img, &img);
    assert!(out.passed);
    assert!(out.similarity >= 990_000);
    assert_eq!(compare_exit_code(&out), 0);
}

#[test]
fn black_against_white_fails_far_below_the_threshold() {
    let black = Raster::from_pixel(4, 4, Rgba { r: 0, g: 0, b: 0, a: 255 });
    let white = Raster::from_pixel(4, 4, Rgba { r: 255, g: 255, b: 255, a: 255 });
    let m = pixel_metric(&black, &white);
    assert_eq!(m.score, 99);
    assert_eq!(
        m.diff_regions,
        vec![PixelDiffRegion {
            x: 0,
            y: 0,
            width: 1_000_000,
            height: 1_000_000,
            severity: DiffSeverity::Major,
            reason: PixelDiffReason::PixelChange,
        }]
    );
    let out = report(&black, &white);
    assert!(!out.passed);
    assert_eq!(out.similarity, 99);
    assert_eq!(compare_exit_code(&out), 1);
}

#[test]
fn similarity_is_the_exact_index_of_a_window() {
    assert_eq!(pixel_similarity(&row_of(&[0, 100]), &row_of(&[0, 200])), 640_828);
    assert_eq!(pixel_similarity(&row_of(&[0, 255]), &row_of(&[255, 0])), 0);
    assert_eq!(pixel_similarity(&Raster::new(0, 3), &Raster::new(0, 3)), 1_000_000);
}

#[test]
fn similarity_is_the_mean_over_windows_of_eight() {
    let reference: Vec<u8> = (0..10).map(|i| i * 10).collect();
    let implementation: Vec<u8> = (0..10).map(|i| i * 10 + if i % 2 == 1 { 5 } else { 0 }).collect();
    // the window of eight pixels scores 992160, the window of two 954883
    assert_eq!(pixel_similarity(&row_of(&reference), &row_of(&implementation)), 973_521);
}

#[test]
fn brightness_weighs_green_most() {
    let base = Raster::from_pixel(2, 2, Rgba { r: 100, g: 100, b: 100, a: 255 });
    let red = pixel_similarity(&base, &Raster::from_pixel(2, 2, Rgba { r: 200, g: 100, b: 100, a: 255 }));
    let green = pixel_similarity(&base, &Raster::from_pixel(2, 2, Rgba { r: 100, g: 200, b: 100, a: 255 }));
    let blue = pixel_similarity(&base, &Raster::from_pixel(2, 2, Rgba { r: 100, g: 100, b: 200, a: 255 }));
    assert!(green < red && red < blue && blue < 1_000_000, "{green} {red} {blue}");
    let alpha = pixel_similarity(&base, &Raster::from_pixel(2, 2, Rgba { r: 100, g: 100, b: 100, a: 0 }));
    assert_eq!(alpha, 1_000_000);
}

#[test]
fn a_thin_noticeable_difference_is_anti_aliasing() {
    let reference = Raster::from_pixel(4, 8, grey(100));
    let mut rows: Vec<Vec<Rgba>> = (0..8).map(|_| vec![grey(100); 4]).collect();
    rows[2][1] = Rgba { r: 110, g: 110, b: 111, a: 255 };
    rows[5][2] = Rgba { r: 110, g: 110, b: 110, a: 255 };
    let implementation = Raster::from_rows(4, 8, rows).unwrap();
    assert_eq!(
        find_diff_regions(&reference, &implementation),
        vec![PixelDiffRegion {
            x: 250_000,
            y: 250_000,
            width: 250_000,
            height: 125_000,
            severity: DiffSeverity::Minor,
            reason: PixelDiffReason::AntiAliasing,
        }]
    );
}

#[test]
fn the_region_spans_all_noticeable_differences() {
    let reference = Raster::from_pixel(6, 6, grey(0));
    let mut rows: Vec<Vec<Rgba>> = (0..6).map(|_| vec![grey(0); 6]).collect();
    rows[1][1] = grey(90);
    rows[3][4] = grey(90);
    rows[5][5] = grey(10);
    let implementation = Raster::from_rows(6, 6, rows).unwrap();
    // mean difference 270 of 765: moderate
    assert_eq!(
        find_diff_regions(&reference, &implementation),
        vec![PixelDiffRegion {
            x: 166_666,
            y: 166_666,
            width: 666_666,
            height: 500_000,
            severity: DiffSeverity::Moderate,
            reason: PixelDiffReason::PixelChange,
        }]
    );
}

#[test]
fn severity_follows_the_mean_difference() {
    let severity = |level: u8| {
        find_diff_regions(&Raster::from_pixel(3, 3, grey(0)), &Raster::from_pixel(3, 3, grey(level)))[0].severity
    };
    assert_eq!(severity(84), DiffSeverity::Minor);
    assert_eq!(severity(85), DiffSeverity::Moderate);
    assert_eq!(severity(168), DiffSeverity::Moderate);
    assert_eq!(severity(169), DiffSeverity::Major);
}

#[test]
fn a_uniform_drift_under_the_threshold_is_rendering_noise() {
    let reference = Raster::from_pixel(3, 3, grey(100));
    let drifted = Raster::from_pixel(3, 3, grey(110));
    assert_eq!(
        find_diff_regions(&reference, &drifted),
        vec![PixelDiffRegion {
            x: 0,
            y: 0,
            width: 1_000_000,
            height: 1_000_000,
            severity: DiffSeverity::Minor,
            reason: PixelDiffReason::RenderingNoise,
        }]
    );
    assert!(find_diff_regions(&reference, &reference).is_empty());
    assert!(find_diff_regions(&Raster::new(0, 0), &Raster::new(0, 0)).is_empty());
}

#[test]
fn an_implementation_of_another_size_is_resampled_first() {
    let reference = Raster::from_pixel(4, 4, grey(50));
    let implementation = Raster::from_pixel(9, 3, grey(50));
    let m = pixel_metric(&reference, &implementation);
    assert!(m.score >= 990_000, "{}", m.score);
    assert!(m.diff_regions.iter().all(|r| r.reason == PixelDiffReason::RenderingNoise));
}
