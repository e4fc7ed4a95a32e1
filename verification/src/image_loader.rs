//! Bringing a loaded image to the size of the viewport.
//!
//! Resampling and compositing are done by the `image` crate. What this module
//! proves is what surrounds them: the size of the embedded image, where it is
//! placed, and what the result holds outside of it.

use crate::decimal::round_half_up;
use crate::raster::lemma_raw_bytes;
use crate::raster::raw_bytes;
use crate::raster::raw_pixel;
use crate::raster::rows_of;
use crate::raster::transparent;
use crate::raster::Raster;
use crate::raster::RasterModel;
use crate::raster::Rgba;
use vstd::prelude::*;

verus! {

/// How an image is brought to size. With `no_resize`, or without both target
/// sizes, the image keeps its size.
#[derive(Clone, Copy, Debug, Default, PartialEq, Eq, Structural)]
pub struct ImageLoadOptions {
    pub no_resize: bool,
    pub target_width: Option<u32>,
    pub target_height: Option<u32>,
    pub enable_ocr: bool,
}

/// The bytes of one row of `width` pixels can be counted in a machine word.
pub open spec fn row_fits(width: nat) -> bool {
    4 * width <= usize::MAX
}

/// The buffers that resampling an image of the given width to the new size
/// allocates are no larger than a vector may be, and the bytes of a row of
/// either width can be counted in a machine word.
pub open spec fn resample_fits(width: nat, new_width: nat, new_height: nat) -> bool {
    &&& row_fits(width)
    &&& row_fits(new_width)
    &&& 16 * (width * new_height) <= isize::MAX
    &&& 4 * (new_width * new_height) <= isize::MAX
}

/// Whether resampling an image of the given width to the new size stays
/// within what a vector may hold.
pub fn can_resample(width: u32, new_width: u32, new_height: u32) -> (r: bool)
    ensures
        r == resample_fits(width as nat, new_width as nat, new_height as nat),
{
    assert(forall|a: int, b: int|
        0 <= a <= 0xffff_ffff && 0 <= b <= 0xffff_ffff ==> 0 <= #[trigger] (a * b) <= 0xffff_ffff
            * 0xffff_ffff) by (nonlinear_arith);
    let rows: u128 = new_height as u128;
    4 * (width as u128) <= usize::MAX as u128 && 4 * (new_width as u128) <= usize::MAX as u128
        && 16 * (width as u128 * rows) <= isize::MAX as u128 && 4 * (new_width as u128 * rows)
        <= isize::MAX as u128
}

/// Whether the bytes of one row of `width` pixels can be counted in a machine
/// word.
pub fn row_can_be_held(width: u32) -> (r: bool)
    ensures
        r == row_fits(width as nat),
{
    4 * (width as u128) <= usize::MAX as u128
}

/// `image::imageops::resize` with `FilterType::Lanczos3`, on raw RGBA bytes.
///
/// The image crate counts the bytes of a row before it counts the rows, and
/// panics where either count, or an allocation, is more than a vector may
/// hold; `resample_fits` leaves those sizes out, for rasters without rows
/// too. The result has four bytes for each pixel of the new size. Where the new
/// size is the old one the function copies, so the result is `raw`. Nothing
/// else is claimed of the resampled bytes: they come from floating-point
/// arithmetic whose rounding may differ between machines.
#[verifier::external_body]
fn resample_raw(raw: &Vec<u8>, width: u32, height: u32, new_width: u32, new_height: u32) -> (out:
    Vec<u8>)
    requires
        raw@.len() == 4 * (height * width),
        resample_fits(width as nat, new_width as nat, new_height as nat),
    ensures
        out@.len() == 4 * (new_height * new_width),
        new_width == width && new_height == height ==> out@ == raw@,
{
    let source = image::ImageBuffer::<image::Rgba<u8>, &[u8]>::from_raw(
        width,
        height,
        raw.as_slice(),
    ).unwrap();
    let filter = image::imageops::FilterType::Lanczos3;
    image::imageops::resize(&source, new_width, new_height, filter).into_raw()
}

/// The raw bytes that `image::imageops::overlay` leaves in the bottom image
/// when it blends the top image onto it at `(x, y)`.
pub uninterp spec fn overlaid(
    bottom: Seq<u8>,
    bottom_width: u32,
    bottom_height: u32,
    top: Seq<u8>,
    top_width: u32,
    top_height: u32,
    x: u32,
    y: u32,
) -> Seq<u8>;

/// Column `px` of row `py` lies in the rectangle of the given size at `(x, y)`.
pub open spec fn in_rect(px: int, py: int, x: int, y: int, width: int, height: int) -> bool {
    x <= px < x + width && y <= py < y + height
}

/// What the source of `overlay` shows of its result `out`, pixel by pixel:
/// a pixel outside the rectangle of the top image is the pixel of the bottom
/// image; inside, it is the top image's pixel where that is opaque and the
/// bottom image's pixel where that is fully transparent.
pub open spec fn respects_overlay(
    out: Seq<u8>,
    bottom: Seq<u8>,
    bottom_width: u32,
    bottom_height: u32,
    top: Seq<u8>,
    top_width: u32,
    top_height: u32,
    x: u32,
    y: u32,
) -> bool {
    forall|px: int, py: int|
        0 <= px < bottom_width && 0 <= py < bottom_height ==> {
            let after = #[trigger] raw_pixel(out, bottom_width as int, px, py);
            let under = raw_pixel(bottom, bottom_width as int, px, py);
            let over = raw_pixel(top, top_width as int, px - x, py - y);
            if !in_rect(px, py, x as int, y as int, top_width as int, top_height as int) {
                after == under
            } else {
                &&& over.a == 255 ==> after == over
                &&& over.a == 0 ==> after == under
            }
        }
}

/// `image::imageops::overlay` on raw RGBA bytes, for a top image that lies
/// within the bottom image, and for rows whose bytes can be counted in a
/// machine word, which the image crate asks of every image.
///
/// The bottom image keeps its size. Outside the rectangle that the top image
/// covers it is unchanged. Inside, an opaque pixel of the top image replaces
/// the pixel under it and a fully transparent one leaves it as it is; any
/// other pixel is blended with the one under it in floating point.
#[verifier::external_body]
fn overlay_raw(
    bottom: Vec<u8>,
    bottom_width: u32,
    bottom_height: u32,
    top: &Vec<u8>,
    top_width: u32,
    top_height: u32,
    x: u32,
    y: u32,
) -> (out: Vec<u8>)
    requires
        bottom@.len() == 4 * (bottom_height * bottom_width),
        top@.len() == 4 * (top_height * top_width),
        x + top_width <= bottom_width,
        y + top_height <= bottom_height,
        row_fits(bottom_width as nat),
    ensures
        out@ == overlaid(bottom@, bottom_width, bottom_height, top@, top_width, top_height, x, y),
        out@.len() == bottom@.len(),
        respects_overlay(
            out@,
            bottom@,
            bottom_width,
            bottom_height,
            top@,
            top_width,
            top_height,
            x,
            y,
        ),
{
    let mut canvas = image::RgbaImage::from_raw(bottom_width, bottom_height, bottom).unwrap();
    let layer = image::ImageBuffer::<image::Rgba<u8>, &[u8]>::from_raw(
        top_width,
        top_height,
        top.as_slice(),
    ).unwrap();
    image::imageops::overlay(&mut canvas, &layer, x.into(), y.into());
    canvas.into_raw()
}

/// The size to which an image of `width` by `height` is scaled to fit into
/// `target_width` by `target_height`: the side that limits the scale takes
/// the target's size, the other side its proportional size, rounded to the
/// nearest pixel. An image without pixels is embedded with no size.
pub open spec fn fitted(width: nat, height: nat, target_width: nat, target_height: nat) -> (
    nat,
    nat,
) {
    if width == 0 || height == 0 {
        (0, 0)
    } else if target_width * height <= target_height * width {
        (target_width, round_half_up(height * target_width, width))
    } else {
        (round_half_up(width * target_height, height), target_height)
    }
}

/// The embedded image never exceeds the target, takes the full target size on
/// one side, and misses the exact proportional size on the other side by no
/// more than half a pixel.
pub proof fn law_fitted_keeps_aspect(width: nat, height: nat, target_width: nat, target_height: nat)
    requires
        width > 0,
        height > 0,
    ensures
        ({
            let (w, h) = fitted(width, height, target_width, target_height);
            &&& w <= target_width
            &&& h <= target_height
            &&& if target_width * height <= target_height * width {
                w == target_width && -(width as int) <= 2 * (h * width - height * target_width)
                    <= width
            } else {
                h == target_height && -(height as int) <= 2 * (w * height - width * target_height)
                    <= height
            }
        }),
{
    if target_width * height <= target_height * width {
        lemma_rounded_quotient(height * target_width, width, target_height);
    } else {
        lemma_rounded_quotient(width * target_height, height, target_width);
    }
}

proof fn lemma_rounded_quotient(n: nat, d: nat, most: nat)
    requires
        d > 0,
        n <= most * d,
    ensures
        round_half_up(n, d) <= most,
        -(d as int) <= 2 * (round_half_up(n, d) * d - n) <= d,
{
    let q = (2 * n + d) / (2 * d);
    assert(q <= most && -(d as int) <= 2 * (q * d - n) <= d) by (nonlinear_arith)
        requires
            d > 0,
            n <= most * d,
            q == (2 * n + d) / (2 * d),
    ;
}

/// The size that `fitted` gives, for sizes that are 32-bit numbers.
pub fn fit_within(width: u32, height: u32, target_width: u32, target_height: u32) -> (r: (u32, u32))
    ensures
        (r.0 as nat, r.1 as nat) == fitted(
            width as nat,
            height as nat,
            target_width as nat,
            target_height as nat,
        ),
        r.0 <= target_width,
        r.1 <= target_height,
{
    if width == 0 || height == 0 {
        return (0, 0);
    }
    proof {
        law_fitted_keeps_aspect(
            width as nat,
            height as nat,
            target_width as nat,
            target_height as nat,
        );
        assert(forall|a: int, b: int|
            0 <= a <= 0xffff_ffff && 0 <= b <= 0xffff_ffff ==> 0 <= #[trigger] (a * b)
                <= 0xffff_ffff * 0xffff_ffff) by (nonlinear_arith);
    }
    let (w, h) = (width as u128, height as u128);
    let (tw, th) = (target_width as u128, target_height as u128);
    if tw * h <= th * w {
        (target_width, ((2 * (h * tw) + w) / (2 * w)) as u32)
    } else {
        (((2 * (w * th) + h) / (2 * h)) as u32, target_height)
    }
}

/// Resamples the image to exactly `target_width` by `target_height`, without
/// regard to its aspect. An image that has that size already is returned as
/// it is.
pub fn resize_to_match(img: &Raster, target_width: u32, target_height: u32) -> (out: Raster)
    requires
        resample_fits(img@.width, target_width as nat, target_height as nat),
    ensures
        out@.width == target_width,
        out@.height == target_height,
        out@.well_formed(),
        img@.width == target_width && img@.height == target_height ==> out@ == img@,
{
    let (width, height) = img.dimensions();
    let raw = img.to_raw();
    let resampled = resample_raw(&raw, width, height, target_width, target_height);
    let out = Raster::from_raw(target_width, target_height, &resampled).unwrap();
    proof {
        if width == target_width && height == target_height {
            crate::raster::lemma_rows_of_raw_bytes(img@);
        }
    }
    out
}

/// The raw bytes of a raster of `cells` transparent pixels.
pub open spec fn blank(cells: nat) -> Seq<u8> {
    Seq::new(4 * cells, |i: int| 0u8)
}

/// The raster of `width` by `height` that shows `inner` in its middle and
/// nothing around it.
pub open spec fn centered(inner: RasterModel, width: u32, height: u32) -> RasterModel {
    RasterModel {
        width: width as nat,
        height: height as nat,
        rows: rows_of(
            overlaid(
                blank(height as nat * width as nat),
                width,
                height,
                raw_bytes(inner.rows),
                inner.width as u32,
                inner.height as u32,
                ((width - inner.width) / 2) as u32,
                ((height - inner.height) / 2) as u32,
            ),
            width as nat,
            height as nat,
        ),
    }
}

fn blank_bytes(width: u32, height: u32) -> (raw: Vec<u8>)
    requires
        4 * (height * width) <= usize::MAX,
    ensures
        raw@ == blank(height as nat * width as nat),
{
    assert(0 <= height * width) by (nonlinear_arith)
        requires
            0 <= height,
            0 <= width,
    ;
    let n: usize = 4 * (height as usize * width as usize);
    let mut raw: Vec<u8> = Vec::new();
    let mut i: usize = 0;
    while i < n
        invariant
            i <= n,
            raw@.len() == i,
            forall|k: int| 0 <= k < i ==> raw@[k] == 0u8,
        decreases n - i,
    {
        raw.push(0u8);
        i = i + 1;
    }
    assert(raw@ =~= blank(height as nat * width as nat));
    raw
}

/// Places `inner` in the middle of a transparent canvas of `width` by
/// `height`, the margins rounded down on the left and at the top.
pub fn place_centered(inner: &Raster, width: u32, height: u32) -> (out: Raster)
    requires
        inner@.width <= width,
        inner@.height <= height,
        row_fits(width as nat),
        4 * (height * width) <= usize::MAX,
    ensures
        out@ == centered(inner@, width, height),
        out@.well_formed(),
        forall|x: int, y: int|
            0 <= x < width && 0 <= y < height ==> {
                let left = (width - inner@.width) / 2;
                let top = (height - inner@.height) / 2;
                if !in_rect(x, y, left, top, inner@.width as int, inner@.height as int) {
                    #[trigger] out@.pixel(x, y) == transparent()
                } else {
                    let over = inner@.pixel(x - left, y - top);
                    &&& over.a == 255 ==> out@.pixel(x, y) == over
                    &&& over.a == 0 ==> out@.pixel(x, y) == transparent()
                }
            },
{
    let (inner_width, inner_height) = inner.dimensions();
    let left = (width - inner_width) / 2;
    let top = (height - inner_height) / 2;
    let canvas = blank_bytes(width, height);
    let layer = inner.to_raw();
    let raw = overlay_raw(canvas, width, height, &layer, inner_width, inner_height, left, top);
    let out = Raster::from_raw(width, height, &raw).unwrap();
    proof {
        lemma_raw_bytes(inner@.rows, inner@.width);
        assert forall|x: int, y: int| 0 <= x < width && 0 <= y < height implies {
            if !in_rect(x, y, left as int, top as int, inner@.width as int, inner@.height as int) {
                #[trigger] out@.pixel(x, y) == transparent()
            } else {
                let over = inner@.pixel(x - left, y - top);
                &&& over.a == 255 ==> out@.pixel(x, y) == over
                &&& over.a == 0 ==> out@.pixel(x, y) == transparent()
            }
        } by {
            assert(out@.pixel(x, y) == raw_pixel(raw@, width as int, x, y));
            let cell: int = y * width + x;
            let cells: int = height * width;
            assert(0 <= cell < cells) by (nonlinear_arith)
                requires
                    0 <= y < height,
                    0 <= x < width,
                    cell == y * width + x,
                    cells == height * width,
            ;
            assert(raw_pixel(canvas@, width as int, x, y) == transparent());
            if in_rect(x, y, left as int, top as int, inner@.width as int, inner@.height as int) {
                assert(raw_pixel(layer@, inner_width as int, x - left, y - top) == inner@.rows[y
                    - top][x - left]);
            }
        }
    }
    out
}

/// `out` is `img` fitted into `target_width` by `target_height`:
/// it has exactly that size; it shows nothing outside the rectangle of the
/// fitted size in its middle; and it is some raster of the fitted size placed
/// in the middle of a transparent canvas, which is `img` itself where `img`
/// has the fitted size already.
pub open spec fn is_letterbox_of(
    out: RasterModel,
    img: RasterModel,
    target_width: u32,
    target_height: u32,
) -> bool {
    let (w, h) = fitted(img.width, img.height, target_width as nat, target_height as nat);
    &&& out.width == target_width
    &&& out.height == target_height
    &&& out.well_formed()
    &&& forall|x: int, y: int|
        0 <= x < target_width && 0 <= y < target_height && !in_rect(
            x,
            y,
            (target_width - w) / 2,
            (target_height - h) / 2,
            w as int,
            h as int,
        ) ==> #[trigger] out.pixel(x, y) == transparent()
    &&& (w, h) == (img.width, img.height) ==> out == centered(img, target_width, target_height)
    &&& exists|inner: RasterModel|
        {
            &&& inner.well_formed()
            &&& (inner.width, inner.height) == (w, h)
            &&& out == #[trigger] centered(inner, target_width, target_height)
        }
}

/// Whatever the image and the target: a letterbox has exactly the target's
/// size; the image embedded in it does not exceed the target, takes one side
/// of it fully, and misses the proportional size on the other side by no
/// more than half a pixel; it stands in the middle, the margins rounded down
/// on the left and at the top; and every pixel outside it is transparent.
pub proof fn law_letterbox_is_exact_and_keeps_aspect(
    out: RasterModel,
    img: RasterModel,
    target_width: u32,
    target_height: u32,
)
    requires
        is_letterbox_of(out, img, target_width, target_height),
        img.width > 0,
        img.height > 0,
    ensures
        out.width == target_width,
        out.height == target_height,
        ({
            let (w, h) = fitted(img.width, img.height, target_width as nat, target_height as nat);
            &&& w <= target_width
            &&& h <= target_height
            &&& w == target_width || h == target_height
            &&& -(img.width as int) <= 2 * (h * img.width - img.height * w) <= img.width
                || -(img.height as int) <= 2 * (w * img.height - img.width * h) <= img.height
            &&& forall|x: int, y: int|
                0 <= x < target_width && 0 <= y < target_height && !in_rect(
                    x,
                    y,
                    (target_width - w) / 2,
                    (target_height - h) / 2,
                    w as int,
                    h as int,
                ) ==> #[trigger] out.pixel(x, y) == transparent()
        }),
{
    law_fitted_keeps_aspect(img.width, img.height, target_width as nat, target_height as nat);
}

/// Whatever is placed in the middle of a canvas, the canvas has exactly the
/// size asked for.
pub proof fn law_letterbox_has_the_target_size(inner: RasterModel, width: u32, height: u32)
    ensures
        centered(inner, width, height).width == width,
        centered(inner, width, height).height == height,
        centered(inner, width, height).well_formed(),
{
}

/// Scales the image to fit into `target_width` by `target_height`, keeping
/// its aspect, and places it in the middle of a transparent canvas of exactly
/// that size.
pub fn resize_with_letterbox(img: &Raster, target_width: u32, target_height: u32) -> (out: Raster)
    requires
        resample_fits(img@.width, target_width as nat, target_height as nat),
    ensures
        out@.width == target_width,
        out@.height == target_height,
        is_letterbox_of(out@, img@, target_width, target_height),
{
    let (width, height) = img.dimensions();
    let (new_width, new_height) = fit_within(width, height, target_width, target_height);
    proof {
        assert(resample_fits(width as nat, new_width as nat, new_height as nat)) by (nonlinear_arith)
            requires
                resample_fits(width as nat, target_width as nat, target_height as nat),
                0 <= new_width <= target_width,
                0 <= new_height <= target_height,
                0 <= width,
        ;
    }
    let resized = resize_to_match(img, new_width, new_height);
    let out = place_centered(&resized, target_width, target_height);
    assert(out@ == centered(resized@, target_width, target_height));
    out
}

/// Fits the image into `target_width` by `target_height` as
/// `resize_with_letterbox` does, where resampling stays within what a vector
/// may hold; nothing where it does not.
pub fn try_resize_with_letterbox(img: &Raster, target_width: u32, target_height: u32) -> (r: Option<
    Raster,
>)
    ensures
        r is Some <==> resample_fits(img@.width, target_width as nat, target_height as nat),
        r matches Some(out) ==> is_letterbox_of(out@, img@, target_width, target_height),
{
    if can_resample(img.width(), target_width, target_height) {
        Some(resize_with_letterbox(img, target_width, target_height))
    } else {
        None
    }
}

} // verus!
