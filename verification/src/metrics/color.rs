//! The color metric: the dominant colors of two rasters, and how far the
//! colors of the implementation are from those of the reference.
//!
//! Colors are counted in steps of sixteen levels per channel. The palette of
//! a raster holds its most frequent colors, the most frequent first. How far
//! two colors are apart is not computed here: the perceptual distance is
//! handed in as a table, in millionths of a unit.

use crate::metrics::matching::taken;
use crate::raster::Raster;
use crate::raster::RasterModel;
use crate::raster::Rgba;
use crate::seqs::count_where;
use crate::seqs::lemma_count_bound;
use crate::seqs::lemma_count_step;
use crate::types::metric_results::ColorDiff;
use crate::types::metric_results::ColorDiffKind;
use crate::types::metric_results::ColorDiffModel;
use crate::types::metric_results::ColorMetric;
use crate::types::metric_results::SCORE_ONE;
use vstd::prelude::*;

verus! {

/// How many colors there are to count.
pub const CODES: usize = 4096;

/// A palette holds at most this many colors.
pub const PALETTE_SIZE: usize = 5;

/// Colors differ when they are more than this apart: five units.
pub const NOTICEABLE_DISTANCE: u32 = 5_000_000;

/// The distance at which two colors have nothing in common: fifty units.
pub const FULL_DISTANCE: u32 = 50_000_000;

/// The number of the step that a pixel's color falls in.
pub open spec fn code_of(p: Rgba) -> int {
    (p.r / 16) * 256 + (p.g / 16) * 16 + p.b / 16
}

/// The pixel falls in the step `code`.
pub open spec fn has_code(code: int) -> spec_fn(Rgba) -> bool {
    |p: Rgba| code_of(p) == code
}

/// How many pixels of the first `n` rows fall in the step `code`.
pub open spec fn count_of(rows: Seq<Seq<Rgba>>, code: int, n: nat) -> nat
    decreases n,
{
    if n == 0 {
        0
    } else {
        count_of(rows, code, (n - 1) as nat) + count_where(rows[n - 1], has_code(code))
    }
}

/// A color of a palette: the lowest color of its step, and how many pixels
/// fall in the step.
#[derive(Clone, Copy, Debug, PartialEq, Eq, Structural)]
pub struct PaletteColor {
    pub r: u8,
    pub g: u8,
    pub b: u8,
    pub count: u64,
}

/// The color of the step `code` with its count.
pub open spec fn palette_color(code: int, count: nat) -> PaletteColor {
    PaletteColor {
        r: ((code / 256) * 16) as u8,
        g: (((code / 16) % 16) * 16) as u8,
        b: ((code % 16) * 16) as u8,
        count: count as u64,
    }
}

/// The step `a` comes before the step `b` in a palette: it holds more
/// pixels, or as many and is the lower step.
pub open spec fn ranks_before(counts: Seq<u64>, a: int, b: int) -> bool {
    counts[a] > counts[b] || (counts[a] == counts[b] && a < b)
}

/// The step `c` holds pixels and comes behind `prev` in a palette.
pub open spec fn eligible(counts: Seq<u64>, prev: Option<int>, c: int) -> bool {
    counts[c] > 0 && (prev is None || ranks_before(counts, prev->0, c))
}

/// Among the first `n` steps, the one that comes first of those behind
/// `prev`.
pub open spec fn pick(counts: Seq<u64>, prev: Option<int>, n: nat) -> Option<int>
    decreases n,
{
    if n == 0 {
        None
    } else {
        let before = pick(counts, prev, (n - 1) as nat);
        let c = n - 1;
        if eligible(counts, prev, c) && (before is None || ranks_before(counts, c, before->0)) {
            Some(c)
        } else {
            before
        }
    }
}

/// The first `k` steps of the palette, or as many as hold pixels.
pub open spec fn palette_codes(counts: Seq<u64>, k: nat) -> Seq<int>
    decreases k,
{
    if k == 0 {
        Seq::empty()
    } else {
        let before = palette_codes(counts, (k - 1) as nat);
        if before.len() < k - 1 {
            before
        } else {
            let prev = if before.len() == 0 {
                None
            } else {
                Some(before.last())
            };
            match pick(counts, prev, counts.len()) {
                Some(c) => before.push(c),
                None => before,
            }
        }
    }
}

/// The counts of all steps for a raster.
pub open spec fn counts_of(img: RasterModel) -> Seq<u64> {
    Seq::new(CODES as nat, |c: int| count_of(img.rows, c, img.height) as u64)
}

/// The palette of a raster.
pub open spec fn palette_of(img: RasterModel) -> Seq<PaletteColor> {
    let counts = counts_of(img);
    let codes = palette_codes(counts, PALETTE_SIZE as nat);
    Seq::new(codes.len(), |i: int| palette_color(codes[i], counts[codes[i]] as nat))
}

fn code_for(p: Rgba) -> (c: usize)
    ensures
        c == code_of(p),
        c < CODES,
{
    (p.r / 16) as usize * 256 + (p.g / 16) as usize * 16 + (p.b / 16) as usize
}

proof fn lemma_count_of_bound(rows: Seq<Seq<Rgba>>, code: int, n: nat, width: nat)
    requires
        n <= rows.len(),
        forall|y: int| 0 <= y < rows.len() ==> (#[trigger] rows[y]).len() == width,
    ensures
        count_of(rows, code, n) <= n * width,
    decreases n,
{
    if n > 0 {
        lemma_count_of_bound(rows, code, (n - 1) as nat, width);
        lemma_count_bound(rows[n - 1], has_code(code));
        assert(n * width == (n - 1) * width + width) by (nonlinear_arith);
    } else {
        assert(n * width == 0) by (nonlinear_arith)
            requires
                n == 0,
        ;
    }
}

/// Counts the pixels of each step.
pub fn count_colors(img: &Raster) -> (counts: Vec<u64>)
    ensures
        counts@ == counts_of(img@),
{
    let (width, height) = img.dimensions();
    let mut counts: Vec<u64> = Vec::new();
    let mut c: usize = 0;
    while c < CODES
        invariant
            c <= CODES,
            counts.len() == c,
            forall|k: int| 0 <= k < c ==> counts@[k] == 0,
        decreases CODES - c,
    {
        counts.push(0);
        c = c + 1;
    }
    let mut y: u32 = 0;
    while y < height
        invariant
            y <= height,
            width == img@.width,
            height == img@.height,
            img@.well_formed(),
            counts.len() == CODES,
            forall|k: int| 0 <= k < CODES ==> #[trigger] counts@[k] == count_of(img@.rows, k, y as nat),
        decreases height - y,
    {
        let ghost row = img@.rows[y as int];
        let ghost before = counts@;
        let mut x: u32 = 0;
        while x < width
            invariant
                x <= width,
                y < height,
                width == img@.width,
                height == img@.height,
                img@.well_formed(),
                row == img@.rows[y as int],
                counts.len() == CODES,
                forall|k: int| 0 <= k < CODES ==> before[k] == count_of(img@.rows, k, y as nat),
                forall|k: int|
                    0 <= k < CODES ==> #[trigger] counts@[k] == before[k] + count_where(
                        row.take(x as int),
                        has_code(k),
                    ),
            decreases width - x,
        {
            let code = code_for(img.get_pixel(x, y));
            proof {
                assert forall|k: int| 0 <= k < CODES implies count_where(
                    row.take(x + 1),
                    has_code(k),
                ) == count_where(row.take(x as int), has_code(k)) + if k == code {
                    1nat
                } else {
                    0nat
                } by {
                    lemma_count_step(row, has_code(k), x as int);
                }
                lemma_count_step(row, has_code(code as int), x as int);
                lemma_count_of_bound(img@.rows, code as int, y as nat, width as nat);
                assert(y * width + (x + 1) <= 0xffff_ffff * 0xffff_ffff) by (nonlinear_arith)
                    requires
                        0 <= y < height <= 0xffff_ffff,
                        0 <= x < width <= 0xffff_ffff,
                ;
            }
            let seen = counts[code];
            counts[code] = seen + 1;
            x = x + 1;
        }
        proof {
            assert(row.take(width as int) =~= row);
        }
        y = y + 1;
    }
    proof {
        assert forall|k: int| 0 <= k < CODES implies counts@[k] == counts_of(img@)[k] by {
            lemma_count_of_bound(img@.rows, k, height as nat, width as nat);
            assert(height * width <= 0xffff_ffff * 0xffff_ffff) by (nonlinear_arith)
                requires
                    0 <= height <= 0xffff_ffff,
                    0 <= width <= 0xffff_ffff,
            ;
        }
        assert(counts@ =~= counts_of(img@));
    }
    counts
}

fn comes_before(counts: &Vec<u64>, a: usize, b: usize) -> (r: bool)
    requires
        a < counts.len(),
        b < counts.len(),
    ensures
        r == ranks_before(counts@, a as int, b as int),
{
    counts[a] > counts[b] || (counts[a] == counts[b] && a < b)
}

fn pick_next(counts: &Vec<u64>, prev: Option<usize>) -> (r: Option<usize>)
    requires
        prev matches Some(p) ==> p < counts.len(),
    ensures
        (match r {
            Some(c) => Some(c as int),
            None => None,
        }) == pick(
            counts@,
            match prev {
                Some(p) => Some(p as int),
                None => None,
            },
            counts@.len(),
        ),
        r matches Some(c) ==> c < counts.len(),
{
    let ghost before = match prev {
        Some(p) => Some(p as int),
        None => None,
    };
    let mut best: Option<usize> = None;
    let mut c: usize = 0;
    while c < counts.len()
        invariant
            c <= counts.len(),
            prev matches Some(p) ==> p < counts.len(),
            before == match prev {
                Some(p) => Some(p as int),
                None => None,
            },
            (match best {
                Some(b) => Some(b as int),
                None => None,
            }) == pick(counts@, before, c as nat),
            best matches Some(b) ==> b < counts.len(),
        decreases counts.len() - c,
    {
        let open = counts[c] > 0 && match prev {
            Some(p) => comes_before(counts, p, c),
            None => true,
        };
        let wins = open && match best {
            Some(b) => comes_before(counts, c, b),
            None => true,
        };
        if wins {
            best = Some(c);
        }
        c = c + 1;
    }
    best
}

fn color_for(code: usize, count: u64) -> (r: PaletteColor)
    requires
        code < CODES,
    ensures
        r == palette_color(code as int, count as nat),
{
    PaletteColor {
        r: ((code / 256) * 16) as u8,
        g: (((code / 16) % 16) * 16) as u8,
        b: ((code % 16) * 16) as u8,
        count,
    }
}

/// The palette of a raster: its up to `PALETTE_SIZE` most frequent colors,
/// the most frequent first, and of equally frequent ones the lower first.
pub fn extract_palette(img: &Raster) -> (palette: Vec<PaletteColor>)
    ensures
        palette@ == palette_of(img@),
        palette.len() <= PALETTE_SIZE,
{
    let counts = count_colors(img);
    let ghost cs = counts@;
    let mut palette: Vec<PaletteColor> = Vec::new();
    let mut codes: Vec<usize> = Vec::new();
    let mut k: usize = 0;
    let ghost picked: Seq<int> = Seq::empty();
    while k < PALETTE_SIZE
        invariant
            k <= PALETTE_SIZE,
            cs == counts@,
            counts.len() == CODES,
            codes.len() == palette.len(),
            codes.len() <= k,
            picked == palette_codes(cs, k as nat),
            picked.len() == codes.len(),
            forall|i: int| 0 <= i < codes.len() ==> #[trigger] codes@[i] == picked[i],
            forall|i: int| 0 <= i < codes.len() ==> #[trigger] codes@[i] < CODES,
            forall|i: int|
                0 <= i < palette.len() ==> palette@[i] == palette_color(
                    picked[i],
                    cs[picked[i]] as nat,
                ),
        decreases PALETTE_SIZE - k,
    {
        if codes.len() == k {
            let prev = if k == 0 {
                None
            } else {
                Some(codes[k - 1])
            };
            let next = pick_next(&counts, prev);
            if let Some(c) = next {
                codes.push(c);
                palette.push(color_for(c, counts[c]));
                proof {
                    picked = picked.push(c as int);
                }
            }
        }
        k = k + 1;
    }
    assert(palette@ =~= palette_of(img@));
    palette
}

/// The character of a hexadecimal digit, in lower case.
pub open spec fn hex_digit(d: int) -> char {
    if d < 10 {
        (48 + d) as char
    } else {
        (87 + d) as char
    }
}

/// A color as `#rrggbb`.
pub open spec fn hex_text(c: PaletteColor) -> Seq<char> {
    seq![
        '#',
        hex_digit(c.r as int / 16),
        hex_digit(c.r as int % 16),
        hex_digit(c.g as int / 16),
        hex_digit(c.g as int % 16),
        hex_digit(c.b as int / 16),
        hex_digit(c.b as int % 16),
    ]
}

fn hex_char(d: u8) -> (c: char)
    requires
        d < 16,
    ensures
        c == hex_digit(d as int),
{
    if d < 10 {
        (48u8 + d) as char
    } else {
        (87u8 + d) as char
    }
}

/// Writes a color as `#rrggbb`.
pub fn hex_string(c: &PaletteColor) -> (text: String)
    ensures
        text@ == hex_text(*c),
{
    let mut text = String::new();
    text.push('#');
    text.push(hex_char(c.r / 16));
    text.push(hex_char(c.r % 16));
    text.push(hex_char(c.g / 16));
    text.push(hex_char(c.g % 16));
    text.push(hex_char(c.b / 16));
    text.push(hex_char(c.b % 16));
    assert(text@ =~= hex_text(*c));
    text
}

/// The brightness of a color.
pub open spec fn lightness(c: PaletteColor) -> int {
    299 * c.r + 587 * c.g + 114 * c.b
}

/// No color of the palette is darker than the one at `i`, or none is
/// lighter.
pub open spec fn is_extreme(palette: Seq<PaletteColor>, i: int) -> bool {
    (forall|k: int| 0 <= k < palette.len() ==> lightness(#[trigger] palette[k]) >= lightness(
        palette[i],
    )) || (forall|k: int|
        0 <= k < palette.len() ==> lightness(#[trigger] palette[k]) <= lightness(palette[i]))
}

/// What a shift of the color at `i` is reported as: the first color of a
/// palette is its primary color, the darkest and the lightest of the others
/// are background, the rest are accents.
pub open spec fn shift_kind(palette: Seq<PaletteColor>, i: int) -> ColorDiffKind {
    if i == 0 {
        ColorDiffKind::PrimaryColorShift
    } else if is_extreme(palette, i) {
        ColorDiffKind::BackgroundColorShift
    } else {
        ColorDiffKind::AccentColorShift
    }
}

/// Among the first `n` colors of the implementation, the free one that is
/// nearest by the distances `row`, and of equally near ones the first.
pub open spec fn nearest_free(row: Seq<u32>, used: Set<int>, n: nat) -> Option<int>
    decreases n,
{
    if n == 0 {
        None
    } else {
        let before = nearest_free(row, used, (n - 1) as nat);
        let j = n - 1;
        if !used.contains(j) && (before is None || row[j] < row[before->0]) {
            Some(j)
        } else {
            before
        }
    }
}

/// For each of the first `n` colors of the reference, the color of the
/// implementation that it is paired with: each takes, in turn, the nearest
/// that is still free.
pub open spec fn color_pairing(table: Seq<Seq<u32>>, others: nat, n: nat) -> Seq<Option<int>>
    decreases n,
{
    if n == 0 {
        Seq::empty()
    } else {
        let before = color_pairing(table, others, (n - 1) as nat);
        before.push(nearest_free(table[n - 1], taken(before), others))
    }
}

/// What a distance costs, in millionths: its share of `FULL_DISTANCE`, at
/// most one whole.
pub open spec fn cost_of(distance: u32) -> int {
    if distance >= FULL_DISTANCE {
        1_000_000
    } else {
        distance as int / 50
    }
}

/// What the first `n` colors of the reference give: the number of pairs, the
/// sum of their costs, and the shifts.
pub open spec fn color_upto(
    refs: Seq<PaletteColor>,
    others: Seq<PaletteColor>,
    table: Seq<Seq<u32>>,
    pairing: Seq<Option<int>>,
    n: nat,
) -> (nat, int, Seq<ColorDiffModel>)
    decreases n,
{
    if n == 0 {
        (0, 0, Seq::empty())
    } else {
        let before = color_upto(refs, others, table, pairing, (n - 1) as nat);
        match pairing[n - 1] {
            None => before,
            Some(j) => {
                let d = table[n - 1][j];
                (
                    before.0 + 1,
                    before.1 + cost_of(d),
                    if d > NOTICEABLE_DISTANCE {
                        before.2.push(
                            ColorDiffModel {
                                kind: shift_kind(refs, n - 1),
                                ref_color: hex_text(refs[n - 1]),
                                impl_color: hex_text(others[j]),
                                delta_e: Some(d as i64),
                            },
                        )
                    } else {
                        before.2
                    },
                )
            },
        }
    }
}

/// The score for pairs of the given total cost, in millionths: one less the
/// mean cost, rounded down; one whole where there are no pairs.
pub open spec fn color_score(pairs: nat, cost: int) -> int {
    if pairs == 0 {
        SCORE_ONE as int
    } else {
        1_000_000 - cost / (pairs as int)
    }
}

/// What the color metric finds for two palettes and the table of the
/// distances between their colors.
pub open spec fn color_of(refs: Seq<PaletteColor>, others: Seq<PaletteColor>, table: Seq<Seq<u32>>) -> (
    int,
    Seq<ColorDiffModel>,
) {
    let found = color_upto(
        refs,
        others,
        table,
        color_pairing(table, others.len(), refs.len()),
        refs.len(),
    );
    (color_score(found.0, found.1), found.2)
}

/// The table has a row for each color of the reference and in each row a
/// distance for each color of the implementation.
pub open spec fn table_fits(table: Seq<Vec<u32>>, refs: nat, others: nat) -> bool {
    &&& table.len() == refs
    &&& forall|i: int| 0 <= i < refs ==> (#[trigger] table[i])@.len() == others
}

/// The table as plain values.
pub open spec fn table_view(table: Seq<Vec<u32>>) -> Seq<Seq<u32>> {
    Seq::new(table.len(), |i: int| table[i]@)
}

fn find_nearest_free(row: &Vec<u32>, used: &Vec<bool>, Ghost(taken_set): Ghost<Set<int>>) -> (r: Option<
    usize,
>)
    requires
        used.len() == row.len(),
        forall|j: int| 0 <= j < used.len() ==> used@[j] == taken_set.contains(j),
    ensures
        (match r {
            Some(j) => Some(j as int),
            None => None,
        }) == nearest_free(row@, taken_set, row@.len()),
        r matches Some(j) ==> j < row.len() && !used@[j as int],
{
    let mut best: Option<usize> = None;
    let mut j: usize = 0;
    while j < row.len()
        invariant
            j <= row.len(),
            used.len() == row.len(),
            forall|k: int| 0 <= k < used.len() ==> used@[k] == taken_set.contains(k),
            (match best {
                Some(b) => Some(b as int),
                None => None,
            }) == nearest_free(row@, taken_set, j as nat),
            best matches Some(b) ==> b < row.len() && !used@[b as int],
        decreases row.len() - j,
    {
        let wins = !used[j] && match best {
            Some(b) => row[j] < row[b],
            None => true,
        };
        if wins {
            best = Some(j);
        }
        j = j + 1;
    }
    best
}

fn lightness_of(c: &PaletteColor) -> (r: u32)
    ensures
        r == lightness(*c),
{
    299 * c.r as u32 + 587 * c.g as u32 + 114 * c.b as u32
}

fn is_extreme_at(palette: &Vec<PaletteColor>, i: usize) -> (r: bool)
    requires
        i < palette.len(),
    ensures
        r == is_extreme(palette@, i as int),
{
    let here = lightness_of(&palette[i]);
    let mut darkest = true;
    let mut lightest = true;
    let mut k: usize = 0;
    while k < palette.len()
        invariant
            k <= palette.len(),
            i < palette.len(),
            here == lightness(palette@[i as int]),
            darkest == (forall|n: int| 0 <= n < k ==> lightness(#[trigger] palette@[n]) >= here),
            lightest == (forall|n: int| 0 <= n < k ==> lightness(#[trigger] palette@[n]) <= here),
        decreases palette.len() - k,
    {
        let l = lightness_of(&palette[k]);
        if l < here {
            darkest = false;
        }
        if l > here {
            lightest = false;
        }
        k = k + 1;
    }
    darkest || lightest
}

fn kind_at(palette: &Vec<PaletteColor>, i: usize) -> (r: ColorDiffKind)
    requires
        i < palette.len(),
    ensures
        r == shift_kind(palette@, i as int),
{
    if i == 0 {
        ColorDiffKind::PrimaryColorShift
    } else if is_extreme_at(palette, i) {
        ColorDiffKind::BackgroundColorShift
    } else {
        ColorDiffKind::AccentColorShift
    }
}

/// Compares two palettes. `table[i][j]` is the distance between the color
/// `i` of the reference and the color `j` of the implementation.
pub fn compare_palettes(refs: &Vec<PaletteColor>, others: &Vec<PaletteColor>, table: &Vec<Vec<u32>>) -> (m:
    ColorMetric)
    requires
        table_fits(table@, refs@.len(), others@.len()),
    ensures
        m.score == color_of(refs@, others@, table_view(table@)).0,
        m.score <= SCORE_ONE,
        m.diffs.deep_view() == color_of(refs@, others@, table_view(table@)).1,
{
    let ghost tv = table_view(table@);
    let mut used: Vec<bool> = Vec::new();
    let mut k: usize = 0;
    while k < others.len()
        invariant
            k <= others.len(),
            used.len() == k,
            forall|j: int| 0 <= j < k ==> !used@[j],
        decreases others.len() - k,
    {
        used.push(false);
        k = k + 1;
    }
    let mut diffs: Vec<ColorDiff> = Vec::new();
    let mut pairs: usize = 0;
    let mut cost: u128 = 0;
    let ghost pairing: Seq<Option<int>> = Seq::empty();
    let mut i: usize = 0;
    assert(diffs.deep_view() =~= Seq::<ColorDiffModel>::empty());
    while i < refs.len()
        invariant
            i <= refs.len(),
            tv == table_view(table@),
            table_fits(table@, refs@.len(), others@.len()),
            used.len() == others.len(),
            pairing == color_pairing(tv, others@.len(), i as nat),
            pairing.len() == i,
            forall|j: int| 0 <= j < used.len() ==> used@[j] == taken(pairing).contains(j),
            pairs == color_upto(refs@, others@, tv, pairing, i as nat).0,
            cost == color_upto(refs@, others@, tv, pairing, i as nat).1,
            diffs.deep_view() == color_upto(refs@, others@, tv, pairing, i as nat).2,
            pairs <= i,
            cost <= pairs * 1_000_000,
        decreases refs.len() - i,
    {
        let row = &table[i];
        let ghost before = pairing;
        let ghost before_diffs = diffs.deep_view();
        proof {
            assert(tv[i as int] == row@);
        }
        let found = find_nearest_free(row, &used, Ghost(taken(pairing)));
        let ghost choice = match found {
            Some(j) => Some(j as int),
            None => None,
        };
        proof {
            pairing = pairing.push(choice);
            lemma_color_upto_prefix(refs@, others@, tv, before, pairing, i as nat);
            assert forall|n: int| 0 <= n < used.len() implies (taken(pairing).contains(n)
                <==> taken(before).contains(n) || choice == Some(n)) by {
                if taken(before).contains(n) {
                    let w = choose|w: int| 0 <= w < before.len() && before[w] == Some(n);
                    assert(pairing[w] == Some(n));
                }
                if taken(pairing).contains(n) {
                    let w = choose|w: int| 0 <= w < pairing.len() && pairing[w] == Some(n);
                    if w < before.len() {
                        assert(before[w] == Some(n));
                    }
                }
                if choice == Some(n) {
                    assert(pairing[pairing.len() - 1] == Some(n));
                }
            }
        }
        if let Some(j) = found {
            used[j] = true;
            let d = row[j];
            pairs = pairs + 1;
            cost = cost + if d >= FULL_DISTANCE {
                1_000_000
            } else {
                (d / 50) as u128
            };
            if d > NOTICEABLE_DISTANCE {
                diffs.push(
                    ColorDiff {
                        kind: kind_at(refs, i),
                        ref_color: hex_string(&refs[i]),
                        impl_color: hex_string(&others[j]),
                        delta_e: Some(d as i64),
                    },
                );
                assert(diffs.deep_view() =~= before_diffs.push(
                    ColorDiffModel {
                        kind: shift_kind(refs@, i as int),
                        ref_color: hex_text(refs@[i as int]),
                        impl_color: hex_text(others@[j as int]),
                        delta_e: Some(d as i64),
                    },
                ));
            }
        }
        i = i + 1;
    }
    let score: u32 = if pairs == 0 {
        SCORE_ONE
    } else {
        assert(0 <= cost as int / (pairs as int) <= 1_000_000) by (nonlinear_arith)
            requires
                0 <= cost <= pairs * 1_000_000,
                pairs > 0,
        ;
        (1_000_000 - cost / pairs as u128) as u32
    };
    ColorMetric { score, diffs }
}

/// What the first `n` colors give depends on the first `n` entries of the
/// pairing only.
proof fn lemma_color_upto_prefix(
    refs: Seq<PaletteColor>,
    others: Seq<PaletteColor>,
    table: Seq<Seq<u32>>,
    short: Seq<Option<int>>,
    long: Seq<Option<int>>,
    n: nat,
)
    requires
        n <= short.len() <= long.len(),
        forall|i: int| 0 <= i < short.len() ==> short[i] == long[i],
    ensures
        color_upto(refs, others, table, short, n) == color_upto(refs, others, table, long, n),
    decreases n,
{
    if n > 0 {
        lemma_color_upto_prefix(refs, others, table, short, long, (n - 1) as nat);
    }
}

} // verus!
