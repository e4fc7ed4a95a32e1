//! Rasters of RGBA pixels.
//!
//! A raster is a rectangle of pixels, kept row by row. Its raw form is the
//! bytes of all pixels in row order, four per pixel: red, green, blue, alpha.

use vstd::prelude::*;

verus! {

/// One pixel: red, green, blue and alpha.
#[derive(Clone, Copy, Debug, PartialEq, Eq, Structural)]
pub struct Rgba {
    pub r: u8,
    pub g: u8,
    pub b: u8,
    pub a: u8,
}

/// The pixel that shows nothing: transparent black.
pub open spec fn transparent() -> Rgba {
    Rgba { r: 0, g: 0, b: 0, a: 0 }
}

/// What a raster holds: its size, and its pixels row by row.
pub struct RasterModel {
    pub width: nat,
    pub height: nat,
    pub rows: Seq<Seq<Rgba>>,
}

impl RasterModel {
    /// There are `height` rows of `width` pixels each.
    pub open spec fn well_formed(self) -> bool {
        &&& self.rows.len() == self.height
        &&& forall|y: int| 0 <= y < self.height ==> (#[trigger] self.rows[y]).len() == self.width
    }

    /// The pixel in column `x` of row `y`.
    pub open spec fn pixel(self, x: int, y: int) -> Rgba
        recommends
            0 <= x < self.width,
            0 <= y < self.height,
    {
        self.rows[y][x]
    }
}

/// The four bytes of each pixel of a row, in order.
pub open spec fn row_bytes(row: Seq<Rgba>) -> Seq<u8>
    decreases row.len(),
{
    if row.len() == 0 {
        Seq::empty()
    } else {
        row_bytes(row.drop_last()) + seq![row.last().r, row.last().g, row.last().b, row.last().a]
    }
}

/// The bytes of all rows, in order.
pub open spec fn raw_bytes(rows: Seq<Seq<Rgba>>) -> Seq<u8>
    decreases rows.len(),
{
    if rows.len() == 0 {
        Seq::empty()
    } else {
        raw_bytes(rows.drop_last()) + row_bytes(rows.last())
    }
}

/// The pixel that raw bytes hold for column `x` of row `y`, where rows are
/// `width` pixels long.
pub open spec fn raw_pixel(raw: Seq<u8>, width: int, x: int, y: int) -> Rgba {
    let at = 4 * (y * width + x);
    Rgba { r: raw[at], g: raw[at + 1], b: raw[at + 2], a: raw[at + 3] }
}

/// The rows that raw bytes hold for a raster of the given size.
pub open spec fn rows_of(raw: Seq<u8>, width: nat, height: nat) -> Seq<Seq<Rgba>> {
    Seq::new(height, |y: int| Seq::new(width, |x: int| raw_pixel(raw, width as int, x, y)))
}

/// A row of `n` pixels has `4 * n` bytes, and each pixel's bytes stand at
/// four times its index.
pub proof fn lemma_row_bytes(row: Seq<Rgba>)
    ensures
        row_bytes(row).len() == 4 * row.len(),
        forall|x: int|
            0 <= x < row.len() ==> {
                &&& row_bytes(row)[4 * x] == (#[trigger] row[x]).r
                &&& row_bytes(row)[4 * x + 1] == row[x].g
                &&& row_bytes(row)[4 * x + 2] == row[x].b
                &&& row_bytes(row)[4 * x + 3] == row[x].a
            },
    decreases row.len(),
{
    if row.len() > 0 {
        let rest = row.drop_last();
        lemma_row_bytes(rest);
        assert forall|x: int| 0 <= x < row.len() implies {
            &&& row_bytes(row)[4 * x] == (#[trigger] row[x]).r
            &&& row_bytes(row)[4 * x + 1] == row[x].g
            &&& row_bytes(row)[4 * x + 2] == row[x].b
            &&& row_bytes(row)[4 * x + 3] == row[x].a
        } by {
            if x < rest.len() {
                assert(rest[x] == row[x]);
            }
        }
    }
}

/// Rows of `width` pixels each have `4 * width` bytes per row, and the bytes
/// of column `x` in row `y` stand where `raw_pixel` reads them.
pub proof fn lemma_raw_bytes(rows: Seq<Seq<Rgba>>, width: nat)
    requires
        forall|y: int| 0 <= y < rows.len() ==> (#[trigger] rows[y]).len() == width,
    ensures
        raw_bytes(rows).len() == 4 * (rows.len() * width),
        forall|x: int, y: int|
            0 <= x < width && 0 <= y < rows.len() ==> raw_pixel(
                raw_bytes(rows),
                width as int,
                x,
                y,
            ) == #[trigger] rows[y][x],
    decreases rows.len(),
{
    if rows.len() > 0 {
        let rest = rows.drop_last();
        let n = rest.len() as int;
        assert forall|y: int| 0 <= y < rest.len() implies (#[trigger] rest[y]).len() == width by {
            assert(rest[y] == rows[y]);
        }
        lemma_raw_bytes(rest, width);
        lemma_row_bytes(rows.last());
        assert(rows.len() * width == n * width + width) by (nonlinear_arith)
            requires
                rows.len() == n + 1,
        ;
        assert forall|x: int, y: int| 0 <= x < width && 0 <= y < rows.len() implies raw_pixel(
            raw_bytes(rows),
            width as int,
            x,
            y,
        ) == #[trigger] rows[y][x] by {
            let at = 4 * (y * width + x);
            if y < n {
                assert(y * width + x < n * width) by (nonlinear_arith)
                    requires
                        0 <= y < n,
                        0 <= x < width,
                ;
                assert(rest[y] == rows[y]);
                assert(raw_pixel(raw_bytes(rest), width as int, x, y) == rest[y][x]);
            } else {
                assert(at == 4 * (n * width) + 4 * x) by (nonlinear_arith)
                    requires
                        at == 4 * (y * width + x),
                        y == n,
                ;
                assert(rows[y] == rows.last());
            }
        }
    }
}

/// Reading back the rows of the raw bytes of a raster gives the raster.
pub proof fn lemma_rows_of_raw_bytes(m: RasterModel)
    requires
        m.well_formed(),
    ensures
        rows_of(raw_bytes(m.rows), m.width, m.height) == m.rows,
{
    lemma_raw_bytes(m.rows, m.width);
    let back = rows_of(raw_bytes(m.rows), m.width, m.height);
    assert forall|y: int| 0 <= y < m.height implies back[y] == m.rows[y] by {
        assert forall|x: int| 0 <= x < m.width implies back[y][x] == m.rows[y][x] by {
            assert(raw_pixel(raw_bytes(m.rows), m.width as int, x, y) == m.rows[y][x]);
        }
        assert(back[y] =~= m.rows[y]);
    }
    assert(back =~= m.rows);
}

/// The rows of pixels that `rows` holds.
pub open spec fn pixel_rows(rows: Vec<Vec<Rgba>>) -> Seq<Seq<Rgba>> {
    Seq::new(rows@.len(), |y: int| rows@[y]@)
}

/// A rectangle of pixels.
#[derive(Debug)]
pub struct Raster {
    width: u32,
    height: u32,
    rows: Vec<Vec<Rgba>>,
}

impl View for Raster {
    type V = RasterModel;

    closed spec fn view(&self) -> RasterModel {
        RasterModel {
            width: self.width as nat,
            height: self.height as nat,
            rows: pixel_rows(self.rows),
        }
    }
}

impl Raster {
    #[verifier::type_invariant]
    spec fn holds_rows(self) -> bool {
        &&& self.rows@.len() == self.height
        &&& forall|y: int| 0 <= y < self.height ==> (#[trigger] self.rows@[y])@.len() == self.width
    }

    /// A raster in which every pixel is `pixel`.
    pub fn from_pixel(width: u32, height: u32, pixel: Rgba) -> (r: Raster)
        ensures
            r@.width == width,
            r@.height == height,
            r@.well_formed(),
            forall|x: int, y: int| 0 <= x < width && 0 <= y < height ==> r@.pixel(x, y) == pixel,
    {
        let mut rows: Vec<Vec<Rgba>> = Vec::new();
        let mut y: u32 = 0;
        while y < height
            invariant
                y <= height,
                rows@.len() == y,
                forall|j: int| 0 <= j < y ==> (#[trigger] rows@[j])@.len() == width,
                forall|i: int, j: int|
                    0 <= i < width && 0 <= j < y ==> #[trigger] rows@[j]@[i] == pixel,
            decreases height - y,
        {
            let mut row: Vec<Rgba> = Vec::new();
            let mut x: u32 = 0;
            while x < width
                invariant
                    x <= width,
                    row@.len() == x,
                    forall|i: int| 0 <= i < x ==> row@[i] == pixel,
                decreases width - x,
            {
                row.push(pixel);
                x = x + 1;
            }
            rows.push(row);
            y = y + 1;
        }
        Raster { width, height, rows }
    }

    /// A raster that shows nothing.
    pub fn new(width: u32, height: u32) -> (r: Raster)
        ensures
            r@.width == width,
            r@.height == height,
            r@.well_formed(),
            forall|x: int, y: int|
                0 <= x < width && 0 <= y < height ==> r@.pixel(x, y) == transparent(),
    {
        Raster::from_pixel(width, height, Rgba { r: 0, g: 0, b: 0, a: 0 })
    }

    /// The number of pixels in a row.
    pub fn width(&self) -> (w: u32)
        ensures
            w == self@.width,
    {
        self.width
    }

    /// The number of rows.
    pub fn height(&self) -> (h: u32)
        ensures
            h == self@.height,
    {
        self.height
    }

    /// Width and height. Every raster has `height` rows of `width` pixels.
    pub fn dimensions(&self) -> (d: (u32, u32))
        ensures
            d.0 == self@.width,
            d.1 == self@.height,
            self@.well_formed(),
    {
        proof {
            use_type_invariant(self);
        }
        (self.width, self.height)
    }

    /// The pixel in column `x` of row `y`.
    pub fn get_pixel(&self, x: u32, y: u32) -> (p: Rgba)
        requires
            x < self@.width,
            y < self@.height,
        ensures
            p == self@.pixel(x as int, y as int),
    {
        proof {
            use_type_invariant(self);
        }
        self.rows[y as usize][x as usize]
    }

    /// The raster with the given rows: none unless there are `height` rows of
    /// `width` pixels each.
    pub fn from_rows(width: u32, height: u32, rows: Vec<Vec<Rgba>>) -> (r: Option<Raster>)
        ensures
            r is Some <==> (RasterModel {
                width: width as nat,
                height: height as nat,
                rows: pixel_rows(rows),
            }).well_formed(),
            r matches Some(out) ==> out@ == (RasterModel {
                width: width as nat,
                height: height as nat,
                rows: pixel_rows(rows),
            }),
    {
        let ghost model = RasterModel {
            width: width as nat,
            height: height as nat,
            rows: pixel_rows(rows),
        };
        if rows.len() != height as usize {
            return None;
        }
        let mut y: usize = 0;
        while y < rows.len()
            invariant
                y <= rows.len(),
                rows.len() == height,
                model.rows == pixel_rows(rows),
                model.width == width,
                model.height == height,
                forall|j: int| 0 <= j < y ==> (#[trigger] rows@[j])@.len() == width,
            decreases rows.len() - y,
        {
            if rows[y].len() != width as usize {
                assert(model.rows[y as int].len() != width);
                return None;
            }
            y = y + 1;
        }
        assert forall|j: int| 0 <= j < model.height implies (#[trigger] model.rows[j]).len()
            == model.width by {
            assert(rows@[j]@.len() == width);
        }
        let out = Raster { width, height, rows };
        assert(out@.rows =~= model.rows);
        Some(out)
    }

    /// The raw bytes of the raster.
    pub fn to_raw(&self) -> (raw: Vec<u8>)
        ensures
            raw@ == raw_bytes(self@.rows),
            raw@.len() == 4 * (self@.height * self@.width),
    {
        proof {
            use_type_invariant(self);
            lemma_raw_bytes(self@.rows, self@.width);
        }
        let mut raw: Vec<u8> = Vec::new();
        let mut y: usize = 0;
        assert(self@.rows.take(0) =~= Seq::<Seq<Rgba>>::empty());
        while y < self.rows.len()
            invariant
                y <= self.rows.len(),
                raw@ == raw_bytes(self@.rows.take(y as int)),
            decreases self.rows.len() - y,
        {
            let row = &self.rows[y];
            let ghost before = raw@;
            let mut x: usize = 0;
            assert(row@.take(0) =~= Seq::<Rgba>::empty());
            while x < row.len()
                invariant
                    x <= row.len(),
                    raw@ == before + row_bytes(row@.take(x as int)),
                decreases row.len() - x,
            {
                let p = row[x];
                proof {
                    assert(row@.take(x + 1).drop_last() =~= row@.take(x as int));
                    assert(row@.take(x + 1).last() == p);
                }
                raw.push(p.r);
                raw.push(p.g);
                raw.push(p.b);
                raw.push(p.a);
                x = x + 1;
                assert(raw@ =~= before + row_bytes(row@.take(x as int)));
            }
            proof {
                assert(row@.take(row.len() as int) =~= row@);
                assert(self@.rows.take(y + 1).drop_last() =~= self@.rows.take(y as int));
                assert(self@.rows.take(y + 1).last() == row@);
            }
            y = y + 1;
        }
        assert(self@.rows.take(self.rows.len() as int) =~= self@.rows);
        raw
    }

    /// The raster of the given size that `raw` holds: none unless `raw` has
    /// exactly four bytes for each pixel.
    pub fn from_raw(width: u32, height: u32, raw: &Vec<u8>) -> (r: Option<Raster>)
        ensures
            r is Some <==> raw@.len() == 4 * (height * width),
            r matches Some(out) ==> {
                &&& out@.width == width
                &&& out@.height == height
                &&& out@.well_formed()
                &&& out@.rows == rows_of(raw@, width as nat, height as nat)
            },
    {
        assert(0 <= height * width <= 0xffff_ffff * 0xffff_ffff) by (nonlinear_arith)
            requires
                0 <= height <= 0xffff_ffff,
                0 <= width <= 0xffff_ffff,
        ;
        let wanted: u128 = 4 * (height as u128 * width as u128);
        if raw.len() as u128 != wanted {
            return None;
        }
        let mut rows: Vec<Vec<Rgba>> = Vec::new();
        let mut y: u32 = 0;
        while y < height
            invariant
                y <= height,
                raw@.len() == 4 * (height * width),
                rows@.len() == y,
                forall|j: int| 0 <= j < y ==> (#[trigger] rows@[j])@.len() == width,
                forall|j: int|
                    0 <= j < y ==> (#[trigger] rows@[j])@ == Seq::new(
                        width as nat,
                        |x: int| raw_pixel(raw@, width as int, x, j),
                    ),
            decreases height - y,
        {
            let mut row: Vec<Rgba> = Vec::new();
            let mut x: u32 = 0;
            while x < width
                invariant
                    x <= width,
                    y < height,
                    raw@.len() == 4 * (height * width),
                    row@.len() == x,
                    forall|i: int|
                        0 <= i < x ==> row@[i] == raw_pixel(raw@, width as int, i, y as int),
                decreases width - x,
            {
                let ghost cell: int = y * width + x;
                let ghost cells: int = height * width;
                assert(0 <= y * width <= cell < cells) by (nonlinear_arith)
                    requires
                        0 <= y < height,
                        0 <= x < width,
                        cell == y * width + x,
                        cells == height * width,
                ;
                assert(4 * cells == raw.len());
                assert(y as usize * width as usize == y * width);
                assert(4 * cell + 3 < raw.len());
                let at: usize = 4 * (y as usize * width as usize + x as usize);
                row.push(Rgba { r: raw[at], g: raw[at + 1], b: raw[at + 2], a: raw[at + 3] });
                x = x + 1;
            }
            assert(row@ =~= Seq::new(
                width as nat,
                |x: int| raw_pixel(raw@, width as int, x, y as int),
            ));
            rows.push(row);
            y = y + 1;
        }
        let out = Raster { width, height, rows };
        assert(out@.rows =~= rows_of(raw@, width as nat, height as nat));
        Some(out)
    }

    /// The pixel in column `x` of row `y`, or nothing where the raster has no
    /// such pixel.
    pub fn pixel(&self, x: u32, y: u32) -> (p: Option<Rgba>)
        ensures
            p == if x < self@.width && y < self@.height {
                Some(self@.pixel(x as int, y as int))
            } else {
                None
            },
    {
        if x < self.width && y < self.height {
            Some(self.get_pixel(x, y))
        } else {
            None
        }
    }
}

} // verus!
