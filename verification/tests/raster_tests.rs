use dpc_lib::heatmap::diff_heatmap;
use dpc_lib::heatmap::heat_pixel;
use dpc_lib::heatmap::heatmap_of;
use dpc_lib::image_loader::can_resample;
use dpc_lib::image_loader::fit_within;
use dpc_lib::image_loader::place_centered;
use dpc_lib::image_loader::resize_to_match;
use dpc_lib::image_loader::resize_with_letterbox;
use dpc_lib::image_loader::row_can_be_held;
use dpc_lib::image_loader::try_resize_with_letterbox;
use dpc_lib::image_loader::ImageLoadOptions;
use dpc_lib::masking::mask_region;
use dpc_lib::masking::region_rect;
use dpc_lib::masking::IgnoreRegion;
use dpc_lib::masking::PixelRect;
use dpc_lib::pipeline::image_view;
use dpc_lib::pipeline::normalize_image;
use dpc_lib::pipeline::try_normalize_image;
use dpc_lib::raster::Raster;
use dpc_lib::raster::Rgba;
use dpc_lib::types::ResourceKind;

const CLEAR: Rgba = Rgba { r: 0, g: 0, b: 0, a: 0 };
const RED: Rgba = Rgba { r: 255, g: 0, b: 0, a: 255 };

fn rgb(r: u8, g: u8, b: u8) -> Rgba {
    Rgba { r, g, b, a: 255 }
}

/// A raster in which each pixel tells its own place.
fn numbered(width: u32, height: u32) -> Raster {
    let rows = (0..height)
        .map(|y| (0..width).map(|x| Rgba { r: x as u8, g: y as u8, b: 7, a: 255 }).collect())
        .collect();
    Raster::from_rows(width, height, rows).unwrap()
}

fn region(x: i64, y: i64, width: i64, height: i64) -> IgnoreRegion {
    IgnoreRegion { x, y, width, height }
}

fn cleared(img: &Raster) -> Vec<(u32, u32)> {
    let mut out = Vec::new();
    for y in 0..img.height() {
        for x in 0..img.width() {
            if img.get_pixel(x, y) == CLEAR {
                out.push((x, y));
            }
        }
    }
    out
}

fn same(a: &Raster, b: &Raster) -> bool {
    a.dimensions() == b.dimensions() && a.to_raw() == b.to_raw()
}

#[test]
fn test_resize_with_letterbox_preserves_aspect() {
    let img = Raster::new(200, 100);
    let result = resize_with_letterbox(&img, 100, 100);
    assert_eq!(result.dimensions(), (100, 100));
}

#[test]
fn test_resize_to_match() {
    let img = Raster::new(200, 100);
    let result = resize_to_match(&img, 50, 50);
    assert_eq!(result.dimensions(), (50, 50));
}

#[test]
fn raw_bytes_go_row_by_row() {
    let img = numbered(2, 2);
    assert_eq!(img.to_raw(), vec![0, 0, 7, 255, 1, 0, 7, 255, 0, 1, 7, 255, 1, 1, 7, 255]);
    let back = Raster::from_raw(2, 2, &img.to_raw()).unwrap();
    assert!(same(&img, &back));
    assert_eq!(back.get_pixel(1, 0), Rgba { r: 1, g: 0, b: 7, a: 255 });
    assert_eq!(back.pixel(0, 1), Some(Rgba { r: 0, g: 1, b: 7, a: 255 }));
    assert_eq!(back.pixel(2, 0), None);
    assert_eq!(back.pixel(0, 2), None);
}

#[test]
fn rasters_are_built_only_from_fitting_data() {
    assert!(Raster::from_raw(2, 2, &vec![0; 15]).is_none());
    assert!(Raster::from_raw(2, 2, &vec![0; 17]).is_none());
    assert!(Raster::from_raw(0, 9, &Vec::new()).is_some());
    assert!(Raster::from_raw(u32::MAX, u32::MAX, &vec![0; 4]).is_none());
    assert!(Raster::from_rows(2, 1, vec![vec![RED, RED]]).is_some());
    assert!(Raster::from_rows(2, 1, vec![vec![RED]]).is_none());
    assert!(Raster::from_rows(2, 2, vec![vec![RED, RED]]).is_none());
    assert_eq!(Raster::new(3, 2).to_raw(), vec![0; 24]);
    assert_eq!(Raster::from_pixel(1, 2, RED).to_raw(), vec![255, 0, 0, 255, 255, 0, 0, 255]);
}

#[test]
fn fitted_size_takes_one_side_fully_and_rounds_the_other() {
    assert_eq!(fit_within(200, 100, 100, 100), (100, 50));
    assert_eq!(fit_within(100, 200, 100, 100), (50, 100));
    assert_eq!(fit_within(20, 10, 40, 20), (40, 20));
    assert_eq!(fit_within(3, 2, 10, 10), (10, 7));
    assert_eq!(fit_within(4, 3, 10, 10), (10, 8));
    assert_eq!(fit_within(1000, 1, 10, 10), (10, 0));
    assert_eq!(fit_within(7, 7, 0, 5), (0, 0));
    assert_eq!(fit_within(0, 7, 5, 5), (0, 0));
    assert_eq!(fit_within(u32::MAX, 1, u32::MAX, u32::MAX), (u32::MAX, 1));
    assert_eq!(fit_within(1, u32::MAX, u32::MAX, u32::MAX), (1, u32::MAX));
}

#[test]
fn letterbox_of_fitting_image_copies_it_between_clear_margins() {
    let img = numbered(10, 5);
    let out = resize_with_letterbox(&img, 10, 9);
    assert_eq!(out.dimensions(), (10, 9));
    for y in 0..9 {
        for x in 0..10 {
            let want = if (2..7).contains(&y) { img.get_pixel(x, y - 2) } else { CLEAR };
            assert_eq!(out.get_pixel(x, y), want, "at {x},{y}");
        }
    }
}

#[test]
fn letterbox_scales_up_and_centers() {
    let img = Raster::from_pixel(20, 10, RED);
    let out = resize_with_letterbox(&img, 40, 40);
    assert_eq!(out.dimensions(), (40, 40));
    for y in 0..40 {
        for x in 0..40 {
            let p = out.get_pixel(x, y);
            if (10..30).contains(&y) {
                assert!(p.a >= 254 && p.r >= 254 && p.g <= 1 && p.b <= 1, "at {x},{y}: {p:?}");
            } else {
                assert_eq!(p, CLEAR, "at {x},{y}");
            }
        }
    }
}

#[test]
fn letterbox_of_an_image_without_pixels_is_a_clear_canvas() {
    let out = resize_with_letterbox(&Raster::new(0, 5), 3, 2);
    assert_eq!(out.to_raw(), vec![0; 24]);
}

#[test]
fn resampling_changes_the_size_and_keeps_a_flat_color() {
    let img = Raster::from_pixel(2, 2, rgb(10, 200, 30));
    let out = resize_to_match(&img, 5, 3);
    assert_eq!(out.dimensions(), (5, 3));
    assert_eq!(out.to_raw().len(), 60);
    let p = out.get_pixel(4, 2);
    assert!((9..=11).contains(&p.r) && (199..=201).contains(&p.g) && p.a >= 254, "{p:?}");
    assert!(same(&resize_to_match(&img, 2, 2), &img));
}

#[test]
fn placing_keeps_opaque_pixels_and_rounds_margins_down() {
    let mut rows = vec![vec![RED, CLEAR, rgb(1, 2, 3)]];
    rows.push(vec![Rgba { r: 9, g: 9, b: 9, a: 0 }, RED, RED]);
    let inner = Raster::from_rows(3, 2, rows).unwrap();
    let out = place_centered(&inner, 6, 5);
    assert_eq!(out.dimensions(), (6, 5));
    let mut opaque = Vec::new();
    for y in 0..5 {
        for x in 0..6 {
            let p = out.get_pixel(x, y);
            if p != CLEAR {
                opaque.push((x, y, p));
            }
        }
    }
    assert_eq!(
        opaque,
        vec![(1, 1, RED), (3, 1, rgb(1, 2, 3)), (2, 2, RED), (3, 2, RED)]
    );
}

#[test]
fn masking_without_regions_changes_nothing() {
    let img = numbered(5, 4);
    assert!(same(&mask_region(&img, &Vec::new()), &img));
    let nothing = vec![region(0, 0, 0, 500_000), region(0, 0, 500_000, -1), region(9_000_000, 0, 1, 1)];
    assert!(same(&mask_region(&img, &nothing), &img));
}

#[test]
fn masking_clears_fractions_of_the_raster() {
    let img = numbered(4, 4);
    let out = mask_region(&img, &vec![region(250_000, 250_000, 500_000, 500_000)]);
    assert_eq!(cleared(&out), vec![(1, 1), (2, 1), (1, 2), (2, 2)]);
    assert_eq!(out.get_pixel(0, 0), img.get_pixel(0, 0));
    assert_eq!(out.get_pixel(3, 2), img.get_pixel(3, 2));
    let all = mask_region(&img, &vec![region(0, 0, 1_000_000, 1_000_000)]);
    assert_eq!(all.to_raw(), vec![0; 64]);
}

#[test]
fn masking_widens_pixel_regions_to_whole_pixels_and_clips() {
    let img = numbered(4, 4);
    let out = mask_region(&img, &vec![region(1_500_000, 0, 1_000_000, 10_000_000)]);
    assert_eq!(
        cleared(&out),
        vec![(1, 0), (2, 0), (1, 1), (2, 1), (1, 2), (2, 2), (1, 3), (2, 3)]
    );
    let corner = mask_region(&img, &vec![region(-1_000_000, -3_000_000, 2_000_000, 3_500_000)]);
    assert_eq!(cleared(&corner), vec![(0, 0)]);
    let two = mask_region(&img, &vec![region(0, 0, 2_000_000, 2_000_000), region(750_000, 750_000, 250_000, 250_000)]);
    assert_eq!(cleared(&two), vec![(0, 0), (1, 0), (0, 1), (1, 1), (3, 3)]);
}

#[test]
fn a_fraction_with_a_negative_corner_is_still_a_fraction() {
    let img = numbered(4, 4);
    let out = mask_region(&img, &vec![region(-500_000, 0, 1_000_000, 1_000_000)]);
    assert_eq!(
        cleared(&out),
        vec![(0, 0), (1, 0), (0, 1), (1, 1), (0, 2), (1, 2), (0, 3), (1, 3)]
    );
    assert_eq!(out.get_pixel(2, 0), img.get_pixel(2, 0));
    assert_eq!(
        region_rect(&region(-500_000, -250_000, 1_000_000, 500_000), 4, 4),
        Some(PixelRect { x0: 0, y0: 0, x1: 2, y1: 1 })
    );
    assert_eq!(
        region_rect(&region(-2_000_000, -2_000_000, 1_000_000, 1_000_000), 4, 4),
        Some(PixelRect { x0: 0, y0: 0, x1: 0, y1: 0 })
    );
    // one value over one whole: pixels
    assert_eq!(
        region_rect(&region(-500_000, 0, 1_000_001, 1_000_000), 4, 4),
        Some(PixelRect { x0: 0, y0: 0, x1: 1, y1: 1 })
    );
}

#[test]
fn region_bounds_follow_floor_and_ceiling() {
    let rect = |r: IgnoreRegion| region_rect(&r, 100, 50);
    assert_eq!(
        rect(region(100_000, 200_000, 255_000, 101_000)),
        Some(PixelRect { x0: 10, y0: 10, x1: 36, y1: 16 })
    );
    assert_eq!(
        rect(region(1_000_000, 1_000_000, 1, 1)),
        Some(PixelRect { x0: 100, y0: 50, x1: 100, y1: 50 })
    );
    assert_eq!(
        rect(region(1_000_001, 0, 1, 1)),
        Some(PixelRect { x0: 1, y0: 0, x1: 2, y1: 1 })
    );
    assert_eq!(
        rect(region(i64::MIN, i64::MAX, i64::MAX, i64::MAX)),
        Some(PixelRect { x0: 0, y0: 50, x1: 0, y1: 50 })
    );
    assert_eq!(rect(region(0, 0, 0, 1)), None);
}

#[test]
fn heatmap_of_equal_rasters_is_transparent() {
    let img = Raster::from_pixel(4, 4, Rgba { r: 10, g: 20, b: 30, a: 255 });
    let heat = diff_heatmap(&img, &img);
    assert_eq!(heat.dimensions(), (4, 4));
    for y in 0..4 {
        for x in 0..4 {
            assert_eq!(heat.get_pixel(x, y).a, 0);
            assert_eq!(heat.get_pixel(x, y), Rgba { r: 0, g: 100, b: 0, a: 0 });
        }
    }
}

#[test]
fn heatmap_of_grey_levels_is_red() {
    let reference = Raster::from_pixel(2, 2, rgb(10, 10, 10));
    let implementation = Raster::from_pixel(2, 2, rgb(200, 200, 200));
    let heat = diff_heatmap(&reference, &implementation);
    assert_eq!(heat.dimensions(), (2, 2));
    assert_eq!(heat.get_pixel(1, 1), Rgba { r: 213, g: 0, b: 0, a: 149 });
    assert!(same(&heat, &heatmap_of(&implementation, &reference)));
}

#[test]
fn heat_bands_change_at_a_third_and_two_thirds() {
    let at = |d: u32| {
        let part = |k: u32| (d.saturating_sub(255 * k)).min(255) as u8;
        heat_pixel(rgb(part(0), part(1), part(2)), Rgba { r: 0, g: 0, b: 0, a: 0 })
    };
    assert_eq!(at(0), Rgba { r: 0, g: 100, b: 0, a: 0 });
    assert_eq!(at(1), Rgba { r: 0, g: 100, b: 0, a: 0 });
    assert_eq!(at(4), Rgba { r: 0, g: 101, b: 0, a: 1 });
    assert_eq!(at(252), Rgba { r: 0, g: 199, b: 0, a: 65 });
    assert_eq!(at(253), Rgba { r: 150, g: 180, b: 0, a: 66 });
    assert_eq!(at(504), Rgba { r: 229, g: 180, b: 0, a: 131 });
    assert_eq!(at(505), Rgba { r: 200, g: 0, b: 0, a: 132 });
    assert_eq!(at(765), Rgba { r: 255, g: 0, b: 0, a: 200 });
}

#[test]
fn heatmap_takes_the_size_of_the_reference() {
    let reference = Raster::from_pixel(2, 3, rgb(0, 0, 0));
    let implementation = Raster::from_pixel(4, 4, rgb(0, 0, 0));
    let heat = diff_heatmap(&reference, &implementation);
    assert_eq!(heat.dimensions(), (2, 3));
    assert!(heat.get_pixel(1, 2).a <= 1);
}

#[test]
fn image_to_normalized_view_saves_output_without_resize() {
    let img = Raster::from_pixel(10, 5, Rgba { r: 255, g: 0, b: 0, a: 255 });
    let options = ImageLoadOptions { no_resize: true, ..Default::default() };
    let out = normalize_image(img, &options);
    let view = image_view("output.png".to_string(), &out, None);
    assert_eq!(view.width, 10);
    assert_eq!(view.height, 5);
    assert_eq!(view.screenshot_path, "output.png");
    assert_eq!(view.kind, ResourceKind::Image);
    assert_eq!(out.to_raw(), Raster::from_pixel(10, 5, RED).to_raw());
}

#[test]
fn image_to_normalized_view_resizes_with_targets() {
    let img = Raster::from_pixel(20, 10, Rgba { r: 0, g: 255, b: 0, a: 255 });
    let options = ImageLoadOptions {
        no_resize: false,
        target_width: Some(40),
        target_height: Some(20),
        ..Default::default()
    };
    let out = normalize_image(img, &options);
    let view = image_view("output2.png".to_string(), &out, None);
    assert_eq!(view.width, 40);
    assert_eq!(view.height, 20);
    assert_eq!(out.dimensions(), (40, 20));
}

#[test]
fn image_to_normalized_view_with_ocr_disabled_has_no_blocks() {
    let img = Raster::from_pixel(10, 5, Rgba { r: 255, g: 0, b: 0, a: 255 });
    let options = ImageLoadOptions { no_resize: true, enable_ocr: false, ..Default::default() };
    let out = normalize_image(img, &options);
    let view = image_view("output_no_ocr.png".to_string(), &out, None);
    assert!(view.ocr_blocks.is_none(), "OCR should not run when disabled");
    assert!(view.dom.is_none() && view.figma_tree.is_none());
}

#[test]
fn an_image_is_fitted_only_where_the_buffers_can_be_held() {
    let fitted = try_resize_with_letterbox(&numbered(10, 5), 10, 9).unwrap();
    assert!(same(&fitted, &resize_with_letterbox(&numbered(10, 5), 10, 9)));
    assert!(try_resize_with_letterbox(&numbered(2, 2), u32::MAX, u32::MAX).is_none());
    let huge = ImageLoadOptions {
        target_width: Some(u32::MAX),
        target_height: Some(u32::MAX),
        ..Default::default()
    };
    assert!(try_normalize_image(numbered(2, 2), &huge).is_none());
    let kept = ImageLoadOptions { no_resize: true, ..huge };
    assert!(same(&try_normalize_image(numbered(2, 2), &kept).unwrap(), &numbered(2, 2)));
    let small = ImageLoadOptions { target_width: Some(4), target_height: Some(4), ..Default::default() };
    assert_eq!(try_normalize_image(numbered(2, 1), &small).unwrap().dimensions(), (4, 4));
}

#[test]
fn the_limits_of_resampling_follow_the_machine_word() {
    let word = usize::MAX as u128;
    let half = isize::MAX as u128;
    for (width, new_width, new_height) in
        [(0u32, 0u32, 0u32), (1 << 30, 1, 0), (1, 1 << 30, 0), (4, 4, 4), (u32::MAX, 1, 1), (1, u32::MAX, u32::MAX)]
    {
        let (w, nw, nh) = (width as u128, new_width as u128, new_height as u128);
        let fits = 4 * w <= word && 4 * nw <= word && 16 * w * nh <= half && 4 * nw * nh <= half;
        assert_eq!(can_resample(width, new_width, new_height), fits);
        assert_eq!(row_can_be_held(width), 4 * w <= word);
    }
    assert!(can_resample(4, 4, 4));
    assert!(!can_resample(1, u32::MAX, u32::MAX));
    // a raster without rows is resampled like any other
    let flat = Raster::new(5, 0);
    assert_eq!(try_resize_with_letterbox(&flat, 3, 3).unwrap().to_raw(), vec![0; 36]);
    assert_eq!(resize_to_match(&flat, 2, 0).dimensions(), (2, 0));
}

#[test]
fn an_image_keeps_its_size_unless_both_targets_are_given() {
    let options = ImageLoadOptions { target_width: Some(40), ..Default::default() };
    assert_eq!(normalize_image(numbered(3, 2), &options).dimensions(), (3, 2));
    let options = ImageLoadOptions { target_height: Some(40), ..Default::default() };
    assert_eq!(normalize_image(numbered(3, 2), &options).dimensions(), (3, 2));
    let options = ImageLoadOptions {
        no_resize: true,
        target_width: Some(9),
        target_height: Some(9),
        enable_ocr: false,
    };
    assert!(same(&normalize_image(numbered(3, 2), &options), &numbered(3, 2)));
}
