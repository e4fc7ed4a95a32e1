//! Ignore regions: rectangles of a raster that are blanked out before pixels
//! are compared.
//!
//! A region none of whose four values is over one whole is a fraction of the
//! raster; a region with any value over one whole is in pixels. Either way
//! the region is widened to whole pixels and clipped to the raster.

use crate::raster::transparent;
use crate::raster::Raster;
use crate::raster::RasterModel;
use crate::raster::Rgba;
use vstd::prelude::*;

verus! {

/// A rectangle to ignore, in millionths of a pixel or of the raster.
#[derive(Clone, Copy, Debug, PartialEq, Eq, Structural)]
pub struct IgnoreRegion {
    pub x: i64,
    pub y: i64,
    pub width: i64,
    pub height: i64,
}

/// The pixels of a raster from column `x0` up to `x1` and from row `y0` up
/// to `y1`, the upper bounds not included.
#[derive(Clone, Copy, Debug, PartialEq, Eq, Structural)]
pub struct PixelRect {
    pub x0: u32,
    pub y0: u32,
    pub x1: u32,
    pub y1: u32,
}

impl PixelRect {
    /// The rectangle holds column `x` of row `y`.
    pub open spec fn contains(self, x: int, y: int) -> bool {
        self.x0 <= x < self.x1 && self.y0 <= y < self.y1
    }
}

impl IgnoreRegion {
    /// The region has no extent and is skipped.
    pub open spec fn is_empty(self) -> bool {
        self.width <= 0 || self.height <= 0
    }

    /// The region is given in fractions of the raster: none of its four
    /// values is over one whole.
    pub open spec fn is_normalized(self) -> bool {
        &&& self.x <= 1_000_000
        &&& self.y <= 1_000_000
        &&& self.width <= 1_000_000
        &&& self.height <= 1_000_000
    }
}

/// A coordinate in millionths of a pixel: `v` times the extent of the raster
/// where `v` is a fraction, `v` itself where it is in pixels already.
pub open spec fn in_pixels(v: i64, extent: nat, normalized: bool) -> int {
    if normalized {
        v * extent
    } else {
        v as int
    }
}

/// The first pixel that a range starting at `start` millionths touches,
/// within `0..=extent`.
pub open spec fn first_pixel(start: int, extent: nat) -> int {
    let pixel = if start <= 0 {
        0
    } else {
        start / 1_000_000
    };
    if pixel > extent {
        extent as int
    } else {
        pixel
    }
}

/// The pixel behind the last one that a range ending at `end` millionths
/// touches, within `0..=extent`.
pub open spec fn end_pixel(end: int, extent: nat) -> int {
    let pixel = if end <= 0 {
        0
    } else {
        (end + 999_999) / 1_000_000
    };
    if pixel > extent {
        extent as int
    } else {
        pixel
    }
}

/// The pixels of a raster of `width` by `height` that the region covers:
/// none for a region without extent.
pub open spec fn covered_rect(region: IgnoreRegion, width: nat, height: nat) -> Option<PixelRect> {
    if region.is_empty() {
        None
    } else {
        let n = region.is_normalized();
        let x = in_pixels(region.x, width, n);
        let y = in_pixels(region.y, height, n);
        let w = in_pixels(region.width, width, n);
        let h = in_pixels(region.height, height, n);
        Some(
            PixelRect {
                x0: first_pixel(x, width) as u32,
                y0: first_pixel(y, height) as u32,
                x1: end_pixel(x + w, width) as u32,
                y1: end_pixel(y + h, height) as u32,
            },
        )
    }
}

/// Some region covers column `x` of row `y`.
pub open spec fn is_masked(regions: Seq<IgnoreRegion>, width: nat, height: nat, x: int, y: int) -> bool {
    exists|k: int|
        0 <= k < regions.len() && (#[trigger] covered_rect(regions[k], width, height) matches Some(
            rect,
        ) && rect.contains(x, y))
}

/// The raster with every covered pixel made transparent.
pub open spec fn masked(m: RasterModel, regions: Seq<IgnoreRegion>) -> RasterModel {
    RasterModel {
        rows: Seq::new(
            m.height,
            |y: int|
                Seq::new(
                    m.width,
                    |x: int|
                        if is_masked(regions, m.width, m.height, x, y) {
                            transparent()
                        } else {
                            m.rows[y][x]
                        },
                ),
        ),
        ..m
    }
}

/// Without regions nothing is masked: the raster stays as it is.
pub proof fn law_mask_nothing(m: RasterModel)
    requires
        m.well_formed(),
    ensures
        masked(m, Seq::empty()) == m,
{
    let out = masked(m, Seq::empty());
    assert forall|y: int| 0 <= y < m.height implies out.rows[y] == m.rows[y] by {
        assert(out.rows[y] =~= m.rows[y]);
    }
    assert(out.rows =~= m.rows);
}

fn scale(v: i64, extent: u32, normalized: bool) -> (r: i128)
    ensures
        r == in_pixels(v, extent as nat, normalized),
        -0x8000_0000_0000_0000 * 0x1_0000_0000 <= r <= 0x8000_0000_0000_0000 * 0x1_0000_0000,
{
    if normalized {
        assert(-0x8000_0000_0000_0000 * 0x1_0000_0000 <= v * extent <= 0x8000_0000_0000_0000
            * 0x1_0000_0000) by (nonlinear_arith)
            requires
                -0x8000_0000_0000_0000 <= v <= 0x8000_0000_0000_0000,
                0 <= extent <= 0x1_0000_0000,
        ;
        v as i128 * extent as i128
    } else {
        v as i128
    }
}

fn first_pixel_of(start: i128, extent: u32) -> (r: u32)
    ensures
        r == first_pixel(start as int, extent as nat),
        r <= extent,
{
    if start <= 0 {
        0
    } else {
        let pixel = start / 1_000_000;
        if pixel > extent as i128 {
            extent
        } else {
            pixel as u32
        }
    }
}

fn end_pixel_of(end: i128, extent: u32) -> (r: u32)
    requires
        end <= 0x7fff_ffff_ffff_ffff_ffff_ffff_fff0_0000,
    ensures
        r == end_pixel(end as int, extent as nat),
        r <= extent,
{
    if end <= 0 {
        0
    } else {
        let pixel = (end + 999_999) / 1_000_000;
        if pixel > extent as i128 {
            extent
        } else {
            pixel as u32
        }
    }
}

/// The pixels of a raster of `width` by `height` that the region covers.
pub fn region_rect(region: &IgnoreRegion, width: u32, height: u32) -> (r: Option<PixelRect>)
    ensures
        r == covered_rect(*region, width as nat, height as nat),
        r matches Some(rect) ==> rect.x1 <= width && rect.y1 <= height,
{
    if region.width <= 0 || region.height <= 0 {
        return None;
    }
    let n = region.x <= 1_000_000 && region.y <= 1_000_000 && region.width <= 1_000_000
        && region.height <= 1_000_000;
    let x = scale(region.x, width, n);
    let y = scale(region.y, height, n);
    let w = scale(region.width, width, n);
    let h = scale(region.height, height, n);
    Some(
        PixelRect {
            x0: first_pixel_of(x, width),
            y0: first_pixel_of(y, height),
            x1: end_pixel_of(x + w, width),
            y1: end_pixel_of(y + h, height),
        },
    )
}

fn any_covers(rects: &Vec<Option<PixelRect>>, x: u32, y: u32) -> (r: bool)
    ensures
        r == exists|k: int|
            0 <= k < rects.len() && (#[trigger] rects@[k] matches Some(rect) && rect.contains(
                x as int,
                y as int,
            )),
{
    let mut k: usize = 0;
    while k < rects.len()
        invariant
            k <= rects.len(),
            forall|j: int|
                0 <= j < k ==> !(#[trigger] rects@[j] matches Some(rect) && rect.contains(
                    x as int,
                    y as int,
                )),
        decreases rects.len() - k,
    {
        if let Some(rect) = rects[k] {
            if rect.x0 <= x && x < rect.x1 && rect.y0 <= y && y < rect.y1 {
                return true;
            }
        }
        k = k + 1;
    }
    false
}

/// Makes every pixel that one of the regions covers transparent.
pub fn mask_region(img: &Raster, regions: &Vec<IgnoreRegion>) -> (out: Raster)
    ensures
        out@ == masked(img@, regions@),
        out@.well_formed(),
{
    let (width, height) = img.dimensions();
    let mut rects: Vec<Option<PixelRect>> = Vec::new();
    let mut k: usize = 0;
    while k < regions.len()
        invariant
            k <= regions.len(),
            rects.len() == k,
            forall|j: int|
                0 <= j < k ==> #[trigger] rects@[j] == covered_rect(
                    regions@[j],
                    width as nat,
                    height as nat,
                ),
        decreases regions.len() - k,
    {
        rects.push(region_rect(&regions[k], width, height));
        k = k + 1;
    }
    let ghost want = masked(img@, regions@);
    let mut rows: Vec<Vec<Rgba>> = Vec::new();
    let mut y: u32 = 0;
    while y < height
        invariant
            y <= height,
            width == img@.width,
            height == img@.height,
            img@.well_formed(),
            want == masked(img@, regions@),
            rects.len() == regions.len(),
            forall|j: int|
                0 <= j < rects.len() ==> #[trigger] rects@[j] == covered_rect(
                    regions@[j],
                    width as nat,
                    height as nat,
                ),
            rows.len() == y,
            forall|j: int| 0 <= j < y ==> (#[trigger] rows@[j])@ == want.rows[j],
        decreases height - y,
    {
        let mut row: Vec<Rgba> = Vec::new();
        let mut x: u32 = 0;
        while x < width
            invariant
                x <= width,
                y < height,
                width == img@.width,
                height == img@.height,
                img@.well_formed(),
                want == masked(img@, regions@),
                rects.len() == regions.len(),
                forall|j: int|
                    0 <= j < rects.len() ==> #[trigger] rects@[j] == covered_rect(
                        regions@[j],
                        width as nat,
                        height as nat,
                    ),
                row.len() == x,
                forall|i: int| 0 <= i < x ==> row@[i] == want.rows[y as int][i],
            decreases width - x,
        {
            let covered = any_covers(&rects, x, y);
            proof {
                let m = is_masked(regions@, width as nat, height as nat, x as int, y as int);
                if covered {
                    let j = choose|j: int|
                        0 <= j < rects.len() && (#[trigger] rects@[j] matches Some(rect)
                            && rect.contains(x as int, y as int));
                    assert(covered_rect(regions@[j], width as nat, height as nat) == rects@[j]);
                }
                if m {
                    let j = choose|j: int|
                        0 <= j < regions.len() && (#[trigger] covered_rect(
                            regions@[j],
                            width as nat,
                            height as nat,
                        ) matches Some(rect) && rect.contains(x as int, y as int));
                    assert(rects@[j] == covered_rect(regions@[j], width as nat, height as nat));
                }
                assert(covered == m);
            }
            if covered {
                row.push(Rgba { r: 0, g: 0, b: 0, a: 0 });
            } else {
                row.push(img.get_pixel(x, y));
            }
            x = x + 1;
        }
        assert(row@ =~= want.rows[y as int]);
        rows.push(row);
        y = y + 1;
    }
    proof {
        assert(crate::raster::pixel_rows(rows) =~= want.rows);
    }
    Raster::from_rows(width, height, rows).unwrap()
}

} // verus!
