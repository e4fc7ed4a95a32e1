use dpc_lib::metrics::color::compare_palettes;
use dpc_lib::metrics::color::count_colors;
use dpc_lib::metrics::color::extract_palette;
use dpc_lib::metrics::color::hex_string;
use dpc_lib::metrics::color::PaletteColor;
use dpc_lib::raster::Raster;
use dpc_lib::raster::Rgba;
use dpc_lib::types::ColorDiffKind;

fn rgb(r: u8, g: u8, b: u8) -> Rgba {
    Rgba { r, g, b, a: 255 }
}

fn color(r: u8, g: u8, b: u8, count: u64) -> PaletteColor {
    PaletteColor { r, g, b, count }
}

fn striped(colors: &[(Rgba, usize)]) -> Raster {
    let row: Vec<Rgba> = colors.iter().flat_map(|(c, n)| vec![*c; *n]).collect();
    Raster::from_rows(row.len() as u32, 2, vec![row.clone(), row]).unwrap()
}

const UNIT: u32 = 1_000_000;

#[test]
fn colors_are_counted_in_steps_of_sixteen() {
    let img = striped(&[(rgb(0, 0, 0), 1), (rgb(15, 15, 15), 2), (rgb(16, 0, 255), 3)]);
    let counts = count_colors(&img);
    assert_eq!(counts.len(), 4096);
    assert_eq!(counts[0], 6);
    assert_eq!(counts[256 + 15], 6);
    assert_eq!(counts.iter().sum::<u64>(), 12);
}

#[test]
fn the_palette_holds_the_five_most_frequent_colors() {
    let img = striped(&[
        (rgb(200, 0, 0), 1),
        (rgb(0, 200, 0), 3),
        (rgb(0, 0, 200), 2),
        (rgb(250, 250, 250), 6),
        (rgb(10, 10, 10), 3),
        (rgb(100, 100, 100), 2),
        (rgb(255, 255, 255), 1),
    ]);
    assert_eq!(
        extract_palette(&img),
        vec![
            color(240, 240, 240, 14),
            color(0, 0, 0, 6),
            color(0, 192, 0, 6),
            color(0, 0, 192, 4),
            color(96, 96, 96, 4),
        ]
    );
}

#[test]
fn a_palette_can_be_shorter_than_five() {
    assert_eq!(extract_palette(&Raster::from_pixel(3, 3, rgb(255, 128, 7))), vec![color(240, 128, 0, 9)]);
    assert!(extract_palette(&Raster::new(0, 0)).is_empty());
    assert_eq!(extract_palette(&Raster::new(2, 1)), vec![color(0, 0, 0, 2)]);
}

#[test]
fn colors_are_written_as_hex() {
    assert_eq!(hex_string(&color(0, 171, 255, 1)), "#00abff");
    assert_eq!(hex_string(&color(16, 9, 160, 1)), "#1009a0");
}

#[test]
fn equal_palettes_score_fully() {
    let palette = vec![color(0, 0, 0, 9), color(240, 240, 240, 3)];
    let table = vec![vec![0, 100 * UNIT], vec![100 * UNIT, 0]];
    let m = compare_palettes(&palette, &palette, &table);
    assert_eq!(m.score, 1_000_000);
    assert!(m.diffs.is_empty());
    let empty = compare_palettes(&Vec::new(), &palette, &Vec::new());
    assert_eq!((empty.score, empty.diffs.len()), (1_000_000, 0));
    let alone = compare_palettes(&palette, &Vec::new(), &vec![vec![], vec![]]);
    assert_eq!((alone.score, alone.diffs.len()), (1_000_000, 0));
}

#[test]
fn each_reference_color_takes_the_nearest_free_color() {
    let refs = vec![color(0, 0, 0, 9), color(128, 128, 128, 5), color(240, 240, 240, 3), color(240, 0, 0, 1)];
    let others = vec![color(16, 16, 16, 8), color(224, 224, 224, 4), color(240, 16, 0, 2)];
    let table = vec![
        vec![4 * UNIT, 90 * UNIT, 40 * UNIT],
        vec![30 * UNIT, 30 * UNIT, 45 * UNIT],
        vec![95 * UNIT, 5 * UNIT + 1, 60 * UNIT],
        vec![50 * UNIT, 70 * UNIT, 2 * UNIT],
    ];
    let m = compare_palettes(&refs, &others, &table);
    // pairs: 0-0 at 4, 1-1 at 30, 2-2 at 60; the fourth color finds no partner
    // costs: 0.08, 0.6, 1: mean 0.56
    assert_eq!(m.score, 440_000);
    let found: Vec<(ColorDiffKind, &str, &str, Option<i64>)> =
        m.diffs.iter().map(|d| (d.kind, d.ref_color.as_str(), d.impl_color.as_str(), d.delta_e)).collect();
    assert_eq!(
        found,
        vec![
            (ColorDiffKind::AccentColorShift, "#808080", "#e0e0e0", Some(30_000_000)),
            (ColorDiffKind::BackgroundColorShift, "#f0f0f0", "#f01000", Some(60_000_000)),
        ]
    );
}

#[test]
fn a_shift_of_the_first_color_is_a_primary_shift() {
    let refs = vec![color(0, 0, 240, 9), color(0, 0, 0, 5)];
    let others = vec![color(0, 240, 0, 9), color(16, 16, 16, 5)];
    let table = vec![vec![80 * UNIT, 40 * UNIT], vec![70 * UNIT, 5 * UNIT]];
    let m = compare_palettes(&refs, &others, &table);
    // the first color takes the second of the implementation, the other what is left
    // costs: 0.8 and 1
    assert_eq!(m.score, 100_000);
    assert_eq!(m.diffs.len(), 2);
    assert_eq!(m.diffs[0].kind, ColorDiffKind::PrimaryColorShift);
    assert_eq!(m.diffs[0].impl_color, "#101010");
    assert_eq!(m.diffs[1].kind, ColorDiffKind::BackgroundColorShift);
    assert_eq!(m.diffs[1].impl_color, "#00f000");
}

#[test]
fn distances_up_to_five_units_are_no_shift() {
    let a = vec![color(0, 0, 0, 1)];
    let at_limit = compare_palettes(&a, &a, &vec![vec![5 * UNIT]]);
    assert_eq!((at_limit.score, at_limit.diffs.len()), (900_000, 0));
    let over = compare_palettes(&a, &a, &vec![vec![5 * UNIT + 49]]);
    assert_eq!((over.score, over.diffs.len()), (900_000, 1));
    let far = compare_palettes(&a, &a, &vec![vec![u32::MAX]]);
    assert_eq!(far.score, 0);
}
