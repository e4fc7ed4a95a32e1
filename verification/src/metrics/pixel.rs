//! The pixel metric: the structural similarity of two rasters, and where
//! they differ.
//!
//! Similarity is measured on the brightness of the pixels, window by window.
//! The windows are eight pixels wide and high and tile the raster from its
//! top-left corner; the windows at the right and at the bottom may be
//! smaller. For each window the structural similarity index is computed
//! exactly, as a quotient of whole numbers, and rounded down to millionths.
//! The score is the mean over all windows.

use crate::heatmap::delta;
use crate::heatmap::pixel_delta;
use crate::image_loader::resample_fits;
use crate::image_loader::resize_to_match;
use crate::raster::Raster;
use crate::raster::RasterModel;
use crate::raster::Rgba;
use crate::types::metric_results::DiffSeverity;
use crate::types::metric_results::PixelDiffReason;
use crate::types::metric_results::PixelDiffRegion;
use crate::types::metric_results::PixelMetric;
use crate::types::metric_results::SCORE_ONE;
use vstd::prelude::*;

verus! {

/// Width and height of a window.
pub const WINDOW: u32 = 8;

/// The brightest that a pixel can be.
pub const MAX_LUMA: i128 = 255_000;

/// The constant that steadies the comparison of the means: the square of one
/// hundredth of `MAX_LUMA`.
pub const C1: i128 = 6_502_500;

/// The constant that steadies the comparison of the variances: the square of
/// three hundredths of `MAX_LUMA`.
pub const C2: i128 = 58_522_500;

/// The brightness of a pixel, in thousandths of a level.
pub open spec fn luma(p: Rgba) -> int {
    299 * p.r + 587 * p.g + 114 * p.b
}

/// The sums that the index of a window is computed from: the number of
/// pixels, the sums of the brightness on either side, of its squares, and of
/// the products of the two sides.
pub struct Moments {
    pub n: int,
    pub sx: int,
    pub sy: int,
    pub sxx: int,
    pub syy: int,
    pub sxy: int,
}

/// The sums of no pixels.
pub open spec fn no_pixels() -> Moments {
    Moments { n: 0, sx: 0, sy: 0, sxx: 0, syy: 0, sxy: 0 }
}

/// The sums with one more pair of pixels.
pub open spec fn with_pixels(m: Moments, p: Rgba, q: Rgba) -> Moments {
    let x = luma(p);
    let y = luma(q);
    Moments {
        n: m.n + 1,
        sx: m.sx + x,
        sy: m.sy + y,
        sxx: m.sxx + x * x,
        syy: m.syy + y * y,
        sxy: m.sxy + x * y,
    }
}

/// The sums `m` with the pixels of the columns `x0..x1` of two rows added.
pub open spec fn with_row(m: Moments, a: Seq<Rgba>, b: Seq<Rgba>, x0: int, x1: int) -> Moments
    decreases x1 - x0,
{
    if x1 <= x0 {
        m
    } else {
        with_pixels(with_row(m, a, b, x0, x1 - 1), a[x1 - 1], b[x1 - 1])
    }
}

/// The sums over the columns `x0..x1` of the rows `y0..y1` of two rasters.
pub open spec fn window_moments(a: RasterModel, b: RasterModel, x0: int, x1: int, y0: int, y1: int) -> Moments
    decreases y1 - y0,
{
    if y1 <= y0 {
        no_pixels()
    } else {
        with_row(window_moments(a, b, x0, x1, y0, y1 - 1), a.rows[y1 - 1], b.rows[y1 - 1], x0, x1)
    }
}

/// `v`, or nothing where `v` is negative.
pub open spec fn at_least_zero(v: int) -> int {
    if v < 0 {
        0
    } else {
        v
    }
}

/// The structural similarity index of a window, in millionths: the product
/// of `2·mx·my + C1` and `2·cov + C2` over the product of `mx² + my² + C1`
/// and `vx + vy + C2`, for the means, variances and covariance of the two
/// sides; nothing where that is negative, and no more than one whole.
pub open spec fn window_index(m: Moments) -> int {
    let n2 = m.n * m.n;
    let a = 2 * (m.sx * m.sy) + C1 * n2;
    let b = 2 * (m.n * m.sxy - m.sx * m.sy) + C2 * n2;
    let c = m.sx * m.sx + m.sy * m.sy + C1 * n2;
    let d = at_least_zero(m.n * m.sxx - m.sx * m.sx) + at_least_zero(m.n * m.syy - m.sy * m.sy)
        + C2 * n2;
    if a <= 0 || b <= 0 || c * d <= 0 {
        0
    } else if a * b >= c * d {
        1_000_000
    } else {
        (a * b * 1_000_000) / (c * d)
    }
}

/// The index of any window lies in the unit interval.
pub proof fn lemma_index_bounded(m: Moments)
    ensures
        0 <= window_index(m) <= 1_000_000,
{
    let n2 = m.n * m.n;
    let a = 2 * (m.sx * m.sy) + C1 * n2;
    let b = 2 * (m.n * m.sxy - m.sx * m.sy) + C2 * n2;
    let c = m.sx * m.sx + m.sy * m.sy + C1 * n2;
    let d = at_least_zero(m.n * m.sxx - m.sx * m.sx) + at_least_zero(m.n * m.syy - m.sy * m.sy)
        + C2 * n2;
    if a > 0 && b > 0 && c * d > 0 && a * b < c * d {
        let p = a * b;
        let q = c * d;
        assert(p > 0) by (nonlinear_arith)
            requires
                p == a * b,
                a > 0,
                b > 0,
        ;
        assert(0 <= (p * 1_000_000) / q <= 1_000_000) by (nonlinear_arith)
            requires
                0 < p < q,
        ;
    }
}

/// The end of the window that starts at `start`, in a raster of `extent`.
pub open spec fn window_end(start: int, extent: int) -> int {
    if start + WINDOW < extent {
        start + WINDOW
    } else {
        extent
    }
}

/// The sum of the indices of the first `k` windows of the row of windows
/// that starts at row `y0`.
pub open spec fn row_of_windows(a: RasterModel, b: RasterModel, y0: int, k: nat) -> int
    decreases k,
{
    if k == 0 {
        0
    } else {
        let x0 = (k - 1) * WINDOW;
        row_of_windows(a, b, y0, (k - 1) as nat) + window_index(
            window_moments(
                a,
                b,
                x0,
                window_end(x0, a.width as int),
                y0,
                window_end(y0, a.height as int),
            ),
        )
    }
}

/// How many windows it takes to cover `extent` pixels.
pub open spec fn windows_across(extent: nat) -> nat {
    ((extent + WINDOW - 1) / WINDOW as int) as nat
}

/// The sum of the indices of all windows in the first `k` rows of windows.
pub open spec fn sum_of_windows(a: RasterModel, b: RasterModel, k: nat) -> int
    decreases k,
{
    if k == 0 {
        0
    } else {
        sum_of_windows(a, b, (k - 1) as nat) + row_of_windows(
            a,
            b,
            (k - 1) * WINDOW,
            windows_across(a.width),
        )
    }
}

/// The similarity of two rasters of the same size, in millionths: the mean
/// index of their windows, rounded down; one whole for rasters without
/// pixels.
pub open spec fn similarity(a: RasterModel, b: RasterModel) -> int {
    let count = windows_across(a.width) * windows_across(a.height);
    if count == 0 {
        SCORE_ONE as int
    } else {
        sum_of_windows(a, b, windows_across(a.height)) / count as int
    }
}

/// What holds of the sums of at most 64 pairs of pixels: each sum is within
/// what that many pixels can give, and the variances are not negative.
pub open spec fn plausible(m: Moments) -> bool {
    &&& 0 <= m.n <= 64
    &&& 0 <= m.sx <= m.n * MAX_LUMA
    &&& 0 <= m.sy <= m.n * MAX_LUMA
    &&& 0 <= m.sxx <= m.n * (MAX_LUMA * MAX_LUMA)
    &&& 0 <= m.syy <= m.n * (MAX_LUMA * MAX_LUMA)
    &&& 0 <= m.sxy <= m.n * (MAX_LUMA * MAX_LUMA)
    &&& m.n * m.sxx >= m.sx * m.sx
    &&& m.n * m.syy >= m.sy * m.sy
}

proof fn lemma_luma_range(p: Rgba)
    ensures
        0 <= luma(p) <= MAX_LUMA,
{
}

proof fn lemma_with_pixels_plausible(m: Moments, p: Rgba, q: Rgba)
    requires
        plausible(m),
        m.n < 64,
    ensures
        plausible(with_pixels(m, p, q)),
{
    let x = luma(p);
    let y = luma(q);
    let l: int = MAX_LUMA as int;
    lemma_luma_range(p);
    lemma_luma_range(q);
    assert(0 <= x * x <= l * l && 0 <= y * y <= l * l && 0 <= x * y <= l * l) by (nonlinear_arith)
        requires
            0 <= x <= l,
            0 <= y <= l,
    ;
    assert((m.n + 1) * l == m.n * l + l) by (nonlinear_arith);
    assert((m.n + 1) * (l * l) == m.n * (l * l) + l * l) by (nonlinear_arith);
    lemma_variance_step(m.n, m.sx, m.sxx, x);
    lemma_variance_step(m.n, m.sy, m.syy, y);
}

/// Adding a value keeps `n` times the sum of squares at or above the square
/// of the sum.
proof fn lemma_variance_step(n: int, s: int, ss: int, v: int)
    requires
        n >= 0,
        n * ss >= s * s,
        n == 0 ==> s == 0 && ss == 0,
    ensures
        (n + 1) * (ss + v * v) >= (s + v) * (s + v),
{
    if n == 0 {
        assert((n + 1) * (ss + v * v) >= (s + v) * (s + v)) by (nonlinear_arith)
            requires
                n == 0,
                s == 0,
                ss == 0,
        ;
    } else {
        let c = v * v;
        let d = s * v;
        let q = ss + n * c - 2 * d;
        assert((n + 1) * (ss + c) == n * ss + ss + n * c + c) by (nonlinear_arith);
        assert((s + v) * (s + v) == s * s + 2 * d + c) by (nonlinear_arith)
            requires
                c == v * v,
                d == s * v,
        ;
        assert((n + 1) * (ss + c) - (s + v) * (s + v) == (n * ss - s * s) + q);
        let w = s - n * v;
        assert(w * w == s * s - 2 * (n * d) + n * (n * c)) by (nonlinear_arith)
            requires
                w == s - n * v,
                c == v * v,
                d == s * v,
        ;
        assert(n * q == n * ss + n * (n * c) - 2 * (n * d)) by (nonlinear_arith)
            requires
                q == ss + n * c - 2 * d,
        ;
        assert(w * w >= 0) by (nonlinear_arith);
        assert(n * q >= 0);
        assert(q >= 0) by (nonlinear_arith)
            requires
                n > 0,
                n * q >= 0,
        ;
    }
}

/// The sums of a window as they are computed.
#[derive(Clone, Copy, Debug)]
pub struct WindowSums {
    pub n: i128,
    pub sx: i128,
    pub sy: i128,
    pub sxx: i128,
    pub syy: i128,
    pub sxy: i128,
}

impl WindowSums {
    /// The sums as unbounded numbers.
    pub open spec fn moments(self) -> Moments {
        Moments {
            n: self.n as int,
            sx: self.sx as int,
            sy: self.sy as int,
            sxx: self.sxx as int,
            syy: self.syy as int,
            sxy: self.sxy as int,
        }
    }
}

fn luma_of(p: Rgba) -> (r: i128)
    ensures
        r == luma(p),
        0 <= r <= MAX_LUMA,
{
    299 * p.r as i128 + 587 * p.g as i128 + 114 * p.b as i128
}

/// The sums over a window of at most eight by eight pixels.
fn window_sums(a: &Raster, b: &Raster, x0: u32, x1: u32, y0: u32, y1: u32) -> (r: WindowSums)
    requires
        a@.width == b@.width,
        a@.height == b@.height,
        x0 <= x1 <= a@.width,
        y0 <= y1 <= a@.height,
        x1 - x0 <= 8,
        y1 - y0 <= 8,
    ensures
        r.moments() == window_moments(a@, b@, x0 as int, x1 as int, y0 as int, y1 as int),
        plausible(r.moments()),
{
    let mut m = WindowSums { n: 0, sx: 0, sy: 0, sxx: 0, syy: 0, sxy: 0 };
    let mut y: u32 = y0;
    while y < y1
        invariant
            a@.width == b@.width,
            a@.height == b@.height,
            x0 <= x1 <= a@.width,
            y0 <= y <= y1 <= a@.height,
            x1 - x0 <= 8,
            y1 - y0 <= 8,
            m.moments() == window_moments(a@, b@, x0 as int, x1 as int, y0 as int, y as int),
            plausible(m.moments()),
            m.n <= 8 * (y - y0),
        decreases y1 - y,
    {
        let ghost before = m.moments();
        let mut x: u32 = x0;
        while x < x1
            invariant
                a@.width == b@.width,
                a@.height == b@.height,
                x0 <= x <= x1 <= a@.width,
                y0 <= y < y1 <= a@.height,
                x1 - x0 <= 8,
                y1 - y0 <= 8,
                m.moments() == with_row(
                    before,
                    a@.rows[y as int],
                    b@.rows[y as int],
                    x0 as int,
                    x as int,
                ),
                plausible(m.moments()),
                m.n <= 8 * (y - y0) + (x - x0),
            decreases x1 - x,
        {
            let p = a.get_pixel(x, y);
            let q = b.get_pixel(x, y);
            let lx = luma_of(p);
            let ly = luma_of(q);
            proof {
                lemma_with_pixels_plausible(m.moments(), p, q);
                assert(0 <= lx * lx <= MAX_LUMA * MAX_LUMA && 0 <= ly * ly <= MAX_LUMA * MAX_LUMA
                    && 0 <= lx * ly <= MAX_LUMA * MAX_LUMA) by (nonlinear_arith)
                    requires
                        0 <= lx <= MAX_LUMA,
                        0 <= ly <= MAX_LUMA,
                ;
                assert(m.n * (MAX_LUMA * MAX_LUMA) <= 64 * (MAX_LUMA * MAX_LUMA)) by (nonlinear_arith)
                    requires
                        0 <= m.n <= 64,
                ;
                assert(m.n * MAX_LUMA <= 64 * MAX_LUMA) by (nonlinear_arith)
                    requires
                        0 <= m.n <= 64,
                ;
            }
            m = WindowSums {
                n: m.n + 1,
                sx: m.sx + lx,
                sy: m.sy + ly,
                sxx: m.sxx + lx * lx,
                syy: m.syy + ly * ly,
                sxy: m.sxy + lx * ly,
            };
            x = x + 1;
        }
        y = y + 1;
    }
    m
}

proof fn lemma_product_bound(p: int, q: int, most_p: int, most_q: int)
    requires
        -most_p <= p <= most_p,
        -most_q <= q <= most_q,
    ensures
        -(most_p * most_q) <= p * q <= most_p * most_q,
{
    assert(-(most_p * most_q) <= p * q <= most_p * most_q) by (nonlinear_arith)
        requires
            -most_p <= p <= most_p,
            -most_q <= q <= most_q,
    ;
}

/// The index of a window.
fn index_of(m: &WindowSums) -> (r: u32)
    requires
        plausible(m.moments()),
    ensures
        r == window_index(m.moments()),
        r <= SCORE_ONE,
{
    let ghost l: int = MAX_LUMA as int;
    let ghost s: int = 64 * l;
    let ghost big: int = 300_000_000_000_000;
    proof {
        assert(m.n * l <= s) by (nonlinear_arith)
            requires
                0 <= m.n <= 64,
                s == 64 * l,
                l >= 0,
        ;
        assert(m.n * (l * l) <= 64 * (l * l)) by (nonlinear_arith)
            requires
                0 <= m.n <= 64,
        ;
        assert(s * s == 266_342_400_000_000 && 64 * (64 * (l * l)) == 266_342_400_000_000) by (nonlinear_arith)
            requires
                s == 64 * l,
                l == 255_000,
        ;
        lemma_product_bound(m.sx as int, m.sy as int, s, s);
        lemma_product_bound(m.sx as int, m.sx as int, s, s);
        lemma_product_bound(m.sy as int, m.sy as int, s, s);
        lemma_product_bound(m.n as int, m.sxy as int, 64, 64 * (l * l));
        lemma_product_bound(m.n as int, m.sxx as int, 64, 64 * (l * l));
        lemma_product_bound(m.n as int, m.syy as int, 64, 64 * (l * l));
        lemma_product_bound(m.n as int, m.n as int, 64, 64);
        assert(0 <= m.n * m.n) by (nonlinear_arith);
        assert(0 <= m.sx * m.sy) by (nonlinear_arith)
            requires
                0 <= m.sx,
                0 <= m.sy,
        ;
        assert(0 <= m.sx * m.sx && 0 <= m.sy * m.sy) by (nonlinear_arith);
    }
    let n2: i128 = m.n * m.n;
    let a: i128 = 2 * (m.sx * m.sy) + C1 * n2;
    let b: i128 = 2 * (m.n * m.sxy - m.sx * m.sy) + C2 * n2;
    let c: i128 = m.sx * m.sx + m.sy * m.sy + C1 * n2;
    let vx: i128 = m.n * m.sxx - m.sx * m.sx;
    let vy: i128 = m.n * m.syy - m.sy * m.sy;
    let d: i128 = (if vx < 0 {
        0
    } else {
        vx
    }) + (if vy < 0 {
        0
    } else {
        vy
    }) + C2 * n2;
    proof {
        assert(0 <= a <= 4 * big && -(4 * big) <= b <= 4 * big && 0 <= c <= 4 * big && 0 <= d <= 4
            * big);
        lemma_product_bound(a as int, b as int, 4 * big, 4 * big);
        lemma_product_bound(c as int, d as int, 4 * big, 4 * big);
        assert((4 * big) * (4 * big) == 1_440_000_000_000_000_000_000_000_000_000) by (nonlinear_arith)
            requires
                big == 300_000_000_000_000,
        ;
        assert(0 <= c * d) by (nonlinear_arith)
            requires
                0 <= c,
                0 <= d,
        ;
    }
    proof {
        lemma_index_bounded(m.moments());
    }
    if a <= 0 || b <= 0 || c * d <= 0 {
        0
    } else if a * b >= c * d {
        1_000_000
    } else {
        (a * b * 1_000_000 / (c * d)) as u32
    }
}

fn end_of_window(start: u32, extent: u32) -> (end: u32)
    requires
        start < extent,
    ensures
        end == window_end(start as int, extent as int),
        start < end <= extent,
        end - start <= 8,
{
    if extent - start > WINDOW {
        start + WINDOW
    } else {
        extent
    }
}

fn count_windows(extent: u32) -> (k: u32)
    ensures
        k == windows_across(extent as nat),
        extent > 0 ==> k > 0 && (k - 1) * WINDOW < extent <= k * WINDOW,
        extent == 0 ==> k == 0,
{
    ((extent as u64 + 7) / 8) as u32
}

/// The sum of the indices of `k` windows is at most `k`.
proof fn lemma_row_bounded(a: RasterModel, b: RasterModel, y0: int, k: nat)
    ensures
        0 <= row_of_windows(a, b, y0, k) <= k * 1_000_000,
    decreases k,
{
    if k > 0 {
        lemma_row_bounded(a, b, y0, (k - 1) as nat);
        let x0 = (k - 1) * WINDOW;
        lemma_index_bounded(
            window_moments(
                a,
                b,
                x0,
                window_end(x0, a.width as int),
                y0,
                window_end(y0, a.height as int),
            ),
        );
        assert(k * 1_000_000 == (k - 1) * 1_000_000 + 1_000_000) by (nonlinear_arith);
    }
}

/// The sum of the indices of `rows` rows of windows is at most the number of
/// their windows.
proof fn lemma_sum_bounded(a: RasterModel, b: RasterModel, rows: nat)
    ensures
        0 <= sum_of_windows(a, b, rows) <= rows * (windows_across(a.width) * 1_000_000),
    decreases rows,
{
    if rows > 0 {
        let across = windows_across(a.width);
        lemma_sum_bounded(a, b, (rows - 1) as nat);
        lemma_row_bounded(a, b, (rows - 1) * WINDOW, across);
        assert(rows * (across * 1_000_000) == (rows - 1) * (across * 1_000_000) + across
            * 1_000_000) by (nonlinear_arith);
    }
}

/// The structural similarity of two rasters of the same size, in millionths.
pub fn pixel_similarity(a: &Raster, b: &Raster) -> (score: u32)
    requires
        a@.width == b@.width,
        a@.height == b@.height,
    ensures
        score == similarity(a@, b@),
        score <= SCORE_ONE,
{
    let (width, height) = a.dimensions();
    let across = count_windows(width);
    let down = count_windows(height);
    if across == 0 || down == 0 {
        assert(windows_across(a@.width) * windows_across(a@.height) == 0) by (nonlinear_arith)
            requires
                windows_across(a@.width) == 0 || windows_across(a@.height) == 0,
        ;
        return SCORE_ONE;
    }
    let mut total: u128 = 0;
    let mut wy: u32 = 0;
    while wy < down
        invariant
            wy <= down,
            width == a@.width,
            height == a@.height,
            a@.width == b@.width,
            a@.height == b@.height,
            across == windows_across(a@.width),
            down == windows_across(a@.height),
            across > 0,
            down > 0,
            (across - 1) * WINDOW < width <= across * WINDOW,
            (down - 1) * WINDOW < height <= down * WINDOW,
            total == sum_of_windows(a@, b@, wy as nat),
        decreases down - wy,
    {
        let y0: u32 = wy * 8;
        let y1 = end_of_window(y0, height);
        let mut row: u128 = 0;
        let mut wx: u32 = 0;
        while wx < across
            invariant
                wx <= across,
                wy < down,
                width == a@.width,
                height == a@.height,
                a@.width == b@.width,
                a@.height == b@.height,
                across == windows_across(a@.width),
                (across - 1) * WINDOW < width <= across * WINDOW,
                y0 == wy * WINDOW,
                y0 < y1 <= height,
                y1 - y0 <= 8,
                y1 == window_end(y0 as int, height as int),
                row == row_of_windows(a@, b@, y0 as int, wx as nat),
            decreases across - wx,
        {
            let x0: u32 = wx * 8;
            let x1 = end_of_window(x0, width);
            let sums = window_sums(a, b, x0, x1, y0, y1);
            proof {
                lemma_row_bounded(a@, b@, y0 as int, wx as nat);
            }
            row = row + index_of(&sums) as u128;
            wx = wx + 1;
        }
        proof {
            lemma_row_bounded(a@, b@, y0 as int, across as nat);
            lemma_sum_bounded(a@, b@, wy as nat);
            assert(wy * (across * 1_000_000) <= 0xffff_ffff * (0xffff_ffff * 1_000_000)) by (nonlinear_arith)
                requires
                    0 <= wy <= 0xffff_ffff,
                    0 <= across <= 0xffff_ffff,
            ;
        }
        total = total + row;
        wy = wy + 1;
    }
    proof {
        lemma_sum_bounded(a@, b@, down as nat);
        assert(0 < across * down <= 0xffff_ffff * 0xffff_ffff) by (nonlinear_arith)
            requires
                0 < across <= 0xffff_ffff,
                0 < down <= 0xffff_ffff,
        ;
        let count = (across * down) as int;
        let sum = sum_of_windows(a@, b@, down as nat);
        assert(down * (across * 1_000_000) == count * 1_000_000) by (nonlinear_arith)
            requires
                count == across * down,
        ;
        assert(0 <= sum / count <= 1_000_000) by (nonlinear_arith)
            requires
                0 <= sum <= count * 1_000_000,
                count > 0,
        ;
    }
    let count: u128 = across as u128 * down as u128;
    (total / count) as u32
}

/// For equal sides the sums of both sides are equal, and so are the sums of
/// squares and of products.
pub open spec fn balanced(m: Moments) -> bool {
    m.sx == m.sy && m.sxx == m.syy && m.sxx == m.sxy
}

proof fn lemma_equal_rows_balanced(m: Moments, row: Seq<Rgba>, x0: int, x1: int)
    requires
        balanced(m),
    ensures
        balanced(with_row(m, row, row, x0, x1)),
    decreases x1 - x0,
{
    if x1 > x0 {
        lemma_equal_rows_balanced(m, row, x0, x1 - 1);
    }
}

proof fn lemma_equal_windows_balanced(a: RasterModel, x0: int, x1: int, y0: int, y1: int)
    ensures
        balanced(window_moments(a, a, x0, x1, y0, y1)),
    decreases y1 - y0,
{
    if y1 > y0 {
        lemma_equal_windows_balanced(a, x0, x1, y0, y1 - 1);
        lemma_equal_rows_balanced(
            window_moments(a, a, x0, x1, y0, y1 - 1),
            a.rows[y1 - 1],
            x0,
            x1,
        );
    }
}

/// What holds of the sums of any number of pairs of pixels: the count is not
/// negative, and the variances are not negative.
pub open spec fn sound(m: Moments) -> bool {
    &&& m.n >= 0
    &&& m.n == 0 ==> m.sx == 0 && m.sxx == 0 && m.sy == 0 && m.syy == 0
    &&& m.n * m.sxx >= m.sx * m.sx
    &&& m.n * m.syy >= m.sy * m.sy
}

proof fn lemma_rows_sound(m: Moments, a: Seq<Rgba>, b: Seq<Rgba>, x0: int, x1: int)
    requires
        sound(m),
    ensures
        sound(with_row(m, a, b, x0, x1)),
        with_row(m, a, b, x0, x1).n >= m.n,
        x1 > x0 ==> with_row(m, a, b, x0, x1).n > 0,
    decreases x1 - x0,
{
    if x1 > x0 {
        lemma_rows_sound(m, a, b, x0, x1 - 1);
        let before = with_row(m, a, b, x0, x1 - 1);
        lemma_variance_step(before.n, before.sx, before.sxx, luma(a[x1 - 1]));
        lemma_variance_step(before.n, before.sy, before.syy, luma(b[x1 - 1]));
    }
}

proof fn lemma_windows_sound(a: RasterModel, b: RasterModel, x0: int, x1: int, y0: int, y1: int)
    ensures
        sound(window_moments(a, b, x0, x1, y0, y1)),
        x1 > x0 && y1 > y0 ==> window_moments(a, b, x0, x1, y0, y1).n > 0,
    decreases y1 - y0,
{
    if y1 > y0 {
        lemma_windows_sound(a, b, x0, x1, y0, y1 - 1);
        lemma_rows_sound(
            window_moments(a, b, x0, x1, y0, y1 - 1),
            a.rows[y1 - 1],
            b.rows[y1 - 1],
            x0,
            x1,
        );
    }
}

/// A window of equal sides that holds a pixel has the index of one whole.
proof fn lemma_balanced_index(m: Moments)
    requires
        sound(m),
        balanced(m),
        m.n > 0,
    ensures
        window_index(m) == 1_000_000,
{
    let n2 = m.n * m.n;
    let v = m.n * m.sxx - m.sx * m.sx;
    let a = 2 * (m.sx * m.sy) + C1 * n2;
    let b = 2 * v + C2 * n2;
    assert(n2 > 0) by (nonlinear_arith)
        requires
            n2 == m.n * m.n,
            m.n > 0,
    ;
    assert(m.sx * m.sx >= 0) by (nonlinear_arith);
    assert(a > 0 && b > 0);
    assert(a * b > 0) by (nonlinear_arith)
        requires
            a > 0,
            b > 0,
    ;
}

/// Every window of a raster against itself has the index of one whole.
proof fn lemma_equal_rows_of_windows(a: RasterModel, y0: int, k: nat)
    requires
        a.well_formed(),
        0 <= y0 < a.height,
        (k as int - 1) * WINDOW < a.width,
    ensures
        row_of_windows(a, a, y0, k) == k * 1_000_000,
    decreases k,
{
    if k > 0 {
        lemma_equal_rows_of_windows(a, y0, (k - 1) as nat);
        let x0 = (k - 1) * WINDOW;
        let x1 = window_end(x0, a.width as int);
        let y1 = window_end(y0, a.height as int);
        lemma_windows_sound(a, a, x0, x1, y0, y1);
        lemma_equal_windows_balanced(a, x0, x1, y0, y1);
        lemma_balanced_index(window_moments(a, a, x0, x1, y0, y1));
        assert(k * 1_000_000 == (k - 1) * 1_000_000 + 1_000_000) by (nonlinear_arith);
    }
}

proof fn lemma_equal_sum_of_windows(a: RasterModel, k: nat)
    requires
        a.well_formed(),
        (k as int - 1) * WINDOW < a.height,
        a.width > 0,
    ensures
        sum_of_windows(a, a, k) == k * (windows_across(a.width) * 1_000_000),
    decreases k,
{
    if k > 0 {
        let across = windows_across(a.width);
        assert((across as int - 1) * WINDOW < a.width);
        lemma_equal_sum_of_windows(a, (k - 1) as nat);
        lemma_equal_rows_of_windows(a, (k - 1) * WINDOW, across);
        assert(k * (across * 1_000_000) == (k - 1) * (across * 1_000_000) + across * 1_000_000)
            by (nonlinear_arith);
    } else {
        assert(k * (windows_across(a.width) * 1_000_000) == 0) by (nonlinear_arith)
            requires
                k == 0,
        ;
    }
}

/// A raster is fully similar to itself.
pub proof fn law_equal_rasters_are_fully_similar(a: RasterModel)
    requires
        a.well_formed(),
    ensures
        similarity(a, a) == SCORE_ONE,
{
    let across = windows_across(a.width);
    let down = windows_across(a.height);
    let count = (across * down) as int;
    if count != 0 {
        assert(across > 0 && down > 0) by (nonlinear_arith)
            requires
                across * down != 0,
                across >= 0,
                down >= 0,
        ;
        lemma_equal_sum_of_windows(a, down);
        assert(down * (across * 1_000_000) == count * 1_000_000) by (nonlinear_arith)
            requires
                count == across * down,
        ;
        assert((count * 1_000_000) / count == 1_000_000) by (nonlinear_arith)
            requires
                count > 0,
        ;
    }
}

/// Two pixels differ noticeably when the sum of the differences of their red,
/// green and blue is more than this.
pub const NOTICEABLE_DELTA: u32 = 30;

/// What is gathered on the differing pixels: how many differ noticeably, the
/// sum of their differences, whether any pixel differs at all, and the
/// smallest rectangle around those that differ noticeably, its right and
/// lower bounds not included.
pub struct DiffStats {
    pub over: int,
    pub sum: int,
    pub drifted: bool,
    pub x0: int,
    pub y0: int,
    pub x1: int,
    pub y1: int,
}

/// The statistics of no pixels of a raster of `width` by `height`.
pub open spec fn no_stats(width: int, height: int) -> DiffStats {
    DiffStats { over: 0, sum: 0, drifted: false, x0: width, y0: height, x1: 0, y1: 0 }
}

/// The smaller of two numbers.
pub open spec fn lower(a: int, b: int) -> int {
    if a < b {
        a
    } else {
        b
    }
}

/// The larger of two numbers.
pub open spec fn higher(a: int, b: int) -> int {
    if a > b {
        a
    } else {
        b
    }
}

/// The statistics with the pixel at `(x, y)`, whose sides differ by `d`.
pub open spec fn with_delta(s: DiffStats, x: int, y: int, d: int) -> DiffStats {
    if d > NOTICEABLE_DELTA {
        DiffStats {
            over: s.over + 1,
            sum: s.sum + d,
            drifted: true,
            x0: lower(s.x0, x),
            y0: lower(s.y0, y),
            x1: higher(s.x1, x + 1),
            y1: higher(s.y1, y + 1),
        }
    } else {
        DiffStats { drifted: s.drifted || d > 0, ..s }
    }
}

/// The statistics `s` with the first `n` pixels of row `y`.
pub open spec fn with_row_deltas(s: DiffStats, a: Seq<Rgba>, b: Seq<Rgba>, y: int, n: nat) -> DiffStats
    decreases n,
{
    if n == 0 {
        s
    } else {
        with_delta(
            with_row_deltas(s, a, b, y, (n - 1) as nat),
            n - 1,
            y,
            delta(a[n - 1], b[n - 1]),
        )
    }
}

/// The statistics of the first `n` rows of two rasters of the same size.
pub open spec fn stats_of(a: RasterModel, b: RasterModel, n: nat) -> DiffStats
    decreases n,
{
    if n == 0 {
        no_stats(a.width as int, a.height as int)
    } else {
        with_row_deltas(stats_of(a, b, (n - 1) as nat), a.rows[n - 1], b.rows[n - 1], n - 1, a.width)
    }
}

/// How severe differences are whose mean is `sum / over`: minor under 33
/// hundredths of the largest difference, which is 765, moderate under 66,
/// major from there.
pub open spec fn severity_of(sum: int, over: int) -> DiffSeverity {
    if 100 * sum < 25_245 * over {
        DiffSeverity::Minor
    } else if 100 * sum < 50_490 * over {
        DiffSeverity::Moderate
    } else {
        DiffSeverity::Major
    }
}

/// What the statistics are reported as, for a raster of `width` by `height`
/// with pixels: nothing where no pixel differs; the whole raster as
/// rendering noise where pixels differ but none noticeably; else the
/// rectangle around the noticeable differences, as a fraction of the raster
/// and rounded down, as anti-aliasing where it is at most two pixels wide or
/// high and as a change of pixels otherwise.
pub open spec fn regions_of(s: DiffStats, width: int, height: int) -> Seq<PixelDiffRegion> {
    if s.over == 0 {
        if s.drifted {
            seq![
                PixelDiffRegion {
                    x: 0,
                    y: 0,
                    width: 1_000_000,
                    height: 1_000_000,
                    severity: DiffSeverity::Minor,
                    reason: PixelDiffReason::RenderingNoise,
                },
            ]
        } else {
            Seq::empty()
        }
    } else {
        seq![
            PixelDiffRegion {
                x: ((s.x0 * 1_000_000) / width) as i64,
                y: ((s.y0 * 1_000_000) / height) as i64,
                width: (((s.x1 - s.x0) * 1_000_000) / width) as i64,
                height: (((s.y1 - s.y0) * 1_000_000) / height) as i64,
                severity: severity_of(s.sum, s.over),
                reason: if s.x1 - s.x0 <= 2 || s.y1 - s.y0 <= 2 {
                    PixelDiffReason::AntiAliasing
                } else {
                    PixelDiffReason::PixelChange
                },
            },
        ]
    }
}

/// Where two rasters of the same size differ.
pub open spec fn diff_regions(a: RasterModel, b: RasterModel) -> Seq<PixelDiffRegion> {
    regions_of(stats_of(a, b, a.height), a.width as int, a.height as int)
}

/// The statistics as they are computed.
struct Tally {
    over: u128,
    sum: u128,
    drifted: bool,
    x0: u32,
    y0: u32,
    x1: u32,
    y1: u32,
}

impl Tally {
    spec fn stats(self) -> DiffStats {
        DiffStats {
            over: self.over as int,
            sum: self.sum as int,
            drifted: self.drifted,
            x0: self.x0 as int,
            y0: self.y0 as int,
            x1: self.x1 as int,
            y1: self.y1 as int,
        }
    }

    /// The counts are within what the pixels seen so far can give, and the
    /// rectangle lies within the raster.
    spec fn within(self, seen: int, width: int, height: int) -> bool {
        &&& self.over <= seen
        &&& self.sum <= 765 * self.over
        &&& self.x1 <= width
        &&& self.y1 <= height
        &&& self.over > 0 ==> self.x0 < self.x1 && self.y0 < self.y1
    }
}

fn gather(a: &Raster, b: &Raster) -> (t: Tally)
    requires
        a@.width == b@.width,
        a@.height == b@.height,
    ensures
        t.stats() == stats_of(a@, b@, a@.height),
        t.within((a@.width * a@.height) as int, a@.width as int, a@.height as int),
{
    let (width, height) = a.dimensions();
    let mut t = Tally { over: 0, sum: 0, drifted: false, x0: width, y0: height, x1: 0, y1: 0 };
    let mut y: u32 = 0;
    proof {
        assert(0 * width == 0) by (nonlinear_arith);
    }
    while y < height
        invariant
            y <= height,
            width == a@.width,
            height == a@.height,
            a@.width == b@.width,
            a@.height == b@.height,
            t.stats() == stats_of(a@, b@, y as nat),
            t.within(y * width, width as int, height as int),
        decreases height - y,
    {
        let ghost before = t.stats();
        let mut x: u32 = 0;
        while x < width
            invariant
                x <= width,
                y < height,
                width == a@.width,
                height == a@.height,
                a@.width == b@.width,
                a@.height == b@.height,
                t.stats() == with_row_deltas(
                    before,
                    a@.rows[y as int],
                    b@.rows[y as int],
                    y as int,
                    x as nat,
                ),
                t.within(y * width + x, width as int, height as int),
            decreases width - x,
        {
            let d = pixel_delta(a.get_pixel(x, y), b.get_pixel(x, y));
            proof {
                assert(0 <= y * width <= 0xffff_ffff * 0xffff_ffff) by (nonlinear_arith)
                    requires
                        0 <= y <= 0xffff_ffff,
                        0 <= width <= 0xffff_ffff,
                ;
            }
            if d > NOTICEABLE_DELTA {
                t = Tally {
                    over: t.over + 1,
                    sum: t.sum + d as u128,
                    drifted: true,
                    x0: if t.x0 < x {
                        t.x0
                    } else {
                        x
                    },
                    y0: if t.y0 < y {
                        t.y0
                    } else {
                        y
                    },
                    x1: if t.x1 > x + 1 {
                        t.x1
                    } else {
                        x + 1
                    },
                    y1: if t.y1 > y + 1 {
                        t.y1
                    } else {
                        y + 1
                    },
                };
            } else {
                t = Tally { drifted: t.drifted || d > 0, ..t };
            }
            x = x + 1;
        }
        proof {
            assert((y + 1) * width == y * width + width) by (nonlinear_arith);
        }
        y = y + 1;
    }
    proof {
        assert(height * width == width * height) by (nonlinear_arith);
    }
    t
}

/// The part `part` of `extent` as a fraction in millionths, rounded down.
fn fraction(part: u32, extent: u32) -> (r: i64)
    requires
        extent > 0,
        part <= extent,
    ensures
        r == (part as int * 1_000_000) / (extent as int),
        0 <= r <= 1_000_000,
{
    assert(0 <= (part as int * 1_000_000) / (extent as int) <= 1_000_000) by (nonlinear_arith)
        requires
            0 <= part <= extent,
            extent > 0,
    ;
    (part as u64 * 1_000_000 / extent as u64) as i64
}

/// Finds where two rasters of the same size differ.
pub fn find_diff_regions(a: &Raster, b: &Raster) -> (regions: Vec<PixelDiffRegion>)
    requires
        a@.width == b@.width,
        a@.height == b@.height,
    ensures
        regions@ == diff_regions(a@, b@),
{
    let (width, height) = a.dimensions();
    let t = gather(a, b);
    let mut regions: Vec<PixelDiffRegion> = Vec::new();
    if t.over == 0 {
        if t.drifted {
            regions.push(
                PixelDiffRegion {
                    x: 0,
                    y: 0,
                    width: 1_000_000,
                    height: 1_000_000,
                    severity: DiffSeverity::Minor,
                    reason: PixelDiffReason::RenderingNoise,
                },
            );
        }
        assert(regions@ =~= diff_regions(a@, b@));
        return regions;
    }
    proof {
        let cells = a@.width * a@.height;
        assert(0 <= cells <= 0xffff_ffff * 0xffff_ffff) by (nonlinear_arith)
            requires
                cells == a@.width * a@.height,
                0 <= a@.width <= 0xffff_ffff,
                0 <= a@.height <= 0xffff_ffff,
        ;
        assert(t.over <= cells);
    }
    let severity = if 100 * t.sum < 25_245 * t.over {
        DiffSeverity::Minor
    } else if 100 * t.sum < 50_490 * t.over {
        DiffSeverity::Moderate
    } else {
        DiffSeverity::Major
    };
    let reason = if t.x1 - t.x0 <= 2 || t.y1 - t.y0 <= 2 {
        PixelDiffReason::AntiAliasing
    } else {
        PixelDiffReason::PixelChange
    };
    regions.push(
        PixelDiffRegion {
            x: fraction(t.x0, width),
            y: fraction(t.y0, height),
            width: fraction(t.x1 - t.x0, width),
            height: fraction(t.y1 - t.y0, height),
            severity,
            reason,
        },
    );
    assert(regions@ =~= diff_regions(a@, b@));
    regions
}

/// Compares two rasters pixel by pixel. An implementation of another size is
/// first resampled to the size of the reference.
pub fn pixel_metric(reference: &Raster, implementation: &Raster) -> (m: PixelMetric)
    requires
        implementation@.width != reference@.width || implementation@.height != reference@.height
            ==> resample_fits(implementation@.width, reference@.width, reference@.height),
    ensures
        m.score <= SCORE_ONE,
        implementation@.width == reference@.width && implementation@.height == reference@.height
            ==> m.score == similarity(reference@, implementation@) && m.diff_regions@
            == diff_regions(reference@, implementation@),
        exists|resized: RasterModel|
            {
                &&& resized.well_formed()
                &&& resized.width == reference@.width
                &&& resized.height == reference@.height
                &&& m.score == #[trigger] similarity(reference@, resized)
                &&& m.diff_regions@ == diff_regions(reference@, resized)
            },
{
    let (width, height) = reference.dimensions();
    let (other_width, other_height) = implementation.dimensions();
    if other_width == width && other_height == height {
        let m = PixelMetric {
            score: pixel_similarity(reference, implementation),
            diff_regions: find_diff_regions(reference, implementation),
        };
        let _ = implementation.dimensions();
        assert(m.score == similarity(reference@, implementation@));
        m
    } else {
        let resized = resize_to_match(implementation, width, height);
        let m = PixelMetric {
            score: pixel_similarity(reference, &resized),
            diff_regions: find_diff_regions(reference, &resized),
        };
        assert(m.score == similarity(reference@, resized@));
        m
    }
}

} // verus!
