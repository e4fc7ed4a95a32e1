//! The heatmap of the differences between two rasters.
//!
//! Each pixel of the heatmap tells how far the two rasters are apart at that
//! place: `delta` is the sum of the absolute differences of red, green and
//! blue, between 0 and `MAX_DELTA`. The alpha of the pixel grows with
//! `delta`, and its color tells the band: green for small differences,
//! yellow for medium ones, red for large ones. All quotients are rounded
//! down.

use crate::image_loader::resample_fits;
use crate::image_loader::resize_to_match;
use crate::raster::pixel_rows;
use crate::raster::Raster;
use crate::raster::RasterModel;
use crate::raster::Rgba;
use vstd::prelude::*;

verus! {

/// The largest difference that two pixels can have.
pub const MAX_DELTA: u32 = 765;

/// Differences up to this are small: under 33 hundredths of `MAX_DELTA`.
pub const SMALL_UP_TO: u32 = 252;

/// Differences up to this are medium: under 66 hundredths of `MAX_DELTA`.
pub const MEDIUM_UP_TO: u32 = 504;

/// The absolute difference of two levels of a channel.
pub open spec fn channel_gap(a: u8, b: u8) -> int {
    if a >= b {
        a - b
    } else {
        b - a
    }
}

/// The sum of the absolute differences of red, green and blue.
pub open spec fn delta(p: Rgba, q: Rgba) -> int {
    channel_gap(p.r, q.r) + channel_gap(p.g, q.g) + channel_gap(p.b, q.b)
}

/// The heatmap pixel for a difference of `d`.
pub open spec fn heat(d: int) -> Rgba
    recommends
        0 <= d <= MAX_DELTA,
{
    let alpha = (200 * d / 765) as u8;
    if d <= SMALL_UP_TO {
        Rgba { r: 0, g: (100 + 10_000 * d / 25_245) as u8, b: 0, a: alpha }
    } else if d <= MEDIUM_UP_TO {
        Rgba { r: (150 + (100 * d - 25_245) * 80 / 25_245) as u8, g: 180, b: 0, a: alpha }
    } else {
        Rgba { r: (200 + (100 * d - 50_490) * 55 / 26_010) as u8, g: 0, b: 0, a: alpha }
    }
}

/// The heatmap of two rasters of the same size.
pub open spec fn heatmap(reference: RasterModel, implementation: RasterModel) -> RasterModel {
    RasterModel {
        width: reference.width,
        height: reference.height,
        rows: Seq::new(
            reference.height,
            |y: int|
                Seq::new(
                    reference.width,
                    |x: int| heat(delta(reference.rows[y][x], implementation.rows[y][x])),
                ),
        ),
    }
}

fn gap(a: u8, b: u8) -> (r: u32)
    ensures
        r == channel_gap(a, b),
        r <= 255,
{
    if a >= b {
        (a - b) as u32
    } else {
        (b - a) as u32
    }
}

/// The sum of the absolute differences of red, green and blue of two pixels.
pub fn pixel_delta(p: Rgba, q: Rgba) -> (d: u32)
    ensures
        d == delta(p, q),
        d <= MAX_DELTA,
{
    gap(p.r, q.r) + gap(p.g, q.g) + gap(p.b, q.b)
}

/// The heatmap pixel for the two pixels `p` and `q`.
pub fn heat_pixel(p: Rgba, q: Rgba) -> (r: Rgba)
    ensures
        r == heat(delta(p, q)),
{
    let d: u32 = pixel_delta(p, q);
    let alpha = (200 * d / 765) as u8;
    if d <= SMALL_UP_TO {
        Rgba { r: 0, g: (100 + 10_000 * d / 25_245) as u8, b: 0, a: alpha }
    } else if d <= MEDIUM_UP_TO {
        Rgba { r: (150 + (100 * d - 25_245) * 80 / 25_245) as u8, g: 180, b: 0, a: alpha }
    } else {
        Rgba { r: (200 + (100 * d - 50_490) * 55 / 26_010) as u8, g: 0, b: 0, a: alpha }
    }
}

/// The heatmap of two rasters of the same size.
pub fn heatmap_of(reference: &Raster, implementation: &Raster) -> (out: Raster)
    requires
        reference@.width == implementation@.width,
        reference@.height == implementation@.height,
    ensures
        out@ == heatmap(reference@, implementation@),
        out@.well_formed(),
{
    let (width, height) = reference.dimensions();
    let ghost want = heatmap(reference@, implementation@);
    let mut rows: Vec<Vec<Rgba>> = Vec::new();
    let mut y: u32 = 0;
    while y < height
        invariant
            y <= height,
            width == reference@.width,
            height == reference@.height,
            reference@.width == implementation@.width,
            reference@.height == implementation@.height,
            want == heatmap(reference@, implementation@),
            rows.len() == y,
            forall|j: int| 0 <= j < y ==> (#[trigger] rows@[j])@ == want.rows[j],
        decreases height - y,
    {
        let mut row: Vec<Rgba> = Vec::new();
        let mut x: u32 = 0;
        while x < width
            invariant
                x <= width,
                y < height,
                width == reference@.width,
                height == reference@.height,
                reference@.width == implementation@.width,
                reference@.height == implementation@.height,
                want == heatmap(reference@, implementation@),
                row.len() == x,
                forall|i: int| 0 <= i < x ==> row@[i] == want.rows[y as int][i],
            decreases width - x,
        {
            row.push(heat_pixel(reference.get_pixel(x, y), implementation.get_pixel(x, y)));
            x = x + 1;
        }
        assert(row@ =~= want.rows[y as int]);
        rows.push(row);
        y = y + 1;
    }
    proof {
        assert(pixel_rows(rows) =~= want.rows);
    }
    Raster::from_rows(width, height, rows).unwrap()
}

/// The heatmap of the differences between a reference and an implementation.
/// An implementation of another size is first resampled to the size of the
/// reference.
pub fn diff_heatmap(reference: &Raster, implementation: &Raster) -> (out: Raster)
    requires
        implementation@.width != reference@.width || implementation@.height != reference@.height
            ==> resample_fits(implementation@.width, reference@.width, reference@.height),
    ensures
        out@.width == reference@.width,
        out@.height == reference@.height,
        out@.well_formed(),
        implementation@.width == reference@.width && implementation@.height == reference@.height
            ==> out@ == heatmap(reference@, implementation@),
        exists|resized: RasterModel|
            {
                &&& resized.well_formed()
                &&& resized.width == reference@.width
                &&& resized.height == reference@.height
                &&& out@ == #[trigger] heatmap(reference@, resized)
            },
{
    let (width, height) = reference.dimensions();
    let (other_width, other_height) = implementation.dimensions();
    if other_width == width && other_height == height {
        let out = heatmap_of(reference, implementation);
        assert(out@ == heatmap(reference@, implementation@));
        out
    } else {
        let resized = resize_to_match(implementation, width, height);
        let out = heatmap_of(reference, &resized);
        assert(out@ == heatmap(reference@, resized@));
        out
    }
}

/// The heatmap of a raster with itself is transparent everywhere.
pub proof fn law_heatmap_of_equal_is_transparent(m: RasterModel, x: int, y: int)
    requires
        m.well_formed(),
        0 <= x < m.width,
        0 <= y < m.height,
    ensures
        heatmap(m, m).pixel(x, y).a == 0,
        heatmap(m, m).pixel(x, y) == (Rgba { r: 0, g: 100, b: 0, a: 0 }),
{
}

} // verus!
