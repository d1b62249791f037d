//! Horizontal stretching of a frame to correct for tall terminal cells.

use crate::color::Rgb;
use crate::frame::{blank, grid_wf, Cell, Grid, Matrix, MAX_SIDE};
use vstd::prelude::*;

verus! {

/// The four bytes of a cell: its colour, opaque, or a transparent pixel for
/// an empty cell.
pub open spec fn cell_bytes(c: Option<Cell>) -> Seq<u8> {
    match c {
        Some(c) => seq![c.color.r, c.color.g, c.color.b, 255u8],
        None => seq![0u8, 0u8, 0u8, 0u8],
    }
}

pub open spec fn row_bytes(row: Seq<Option<Cell>>) -> Seq<u8>
    decreases row.len(),
{
    if row.len() == 0 {
        Seq::empty()
    } else {
        row_bytes(row.drop_last()) + cell_bytes(row.last())
    }
}

/// The frame as packed RGBA bytes, row by row.
pub open spec fn grid_bytes(g: Grid) -> Seq<u8>
    decreases g.len(),
{
    if g.len() == 0 {
        Seq::empty()
    } else {
        grid_bytes(g.drop_last()) + row_bytes(g.last())
    }
}

/// The cell held by the four bytes at `i`: a transparent pixel reads as empty.
pub open spec fn pixel_cell(px: Seq<u8>, i: int) -> Option<Cell> {
    if px[i + 3] == 0 {
        None
    } else {
        Some(Cell { color: Rgb { r: px[i], g: px[i + 1], b: px[i + 2] } })
    }
}

/// The `w` by `h` grid read from packed RGBA bytes.
pub open spec fn grid_of_bytes(px: Seq<u8>, w: int, h: int) -> Grid {
    Seq::new(h as nat, |y: int| Seq::new(w as nat, |x: int| pixel_cell(px, (y * w + x) * 4)))
}

/// What nearest-neighbour resampling makes of a `w` by `h` RGBA image when
/// resized to `nw` by `nh`.
pub uninterp spec fn nearest_resized(px: Seq<u8>, w: int, h: int, nw: int, nh: int) -> Seq<u8>;

/// Relies on image's `imageops::resize` with `FilterType::Nearest` on an
/// RGBA8 `ImageBuffer`: the result is `nw` by `nh` pixels, and an image
/// resized to its own size is copied unchanged.
#[verifier::external_body]
fn resize_nearest(px: Vec<u8>, w: u32, h: u32, nw: u32, nh: u32) -> (r: Vec<u8>)
    requires
        px@.len() == w * h * 4,
        w > 0,
        h > 0,
        nw > 0,
        nh > 0,
        nw <= MAX_SIDE,
        nh <= MAX_SIDE,
    ensures
        r@ == nearest_resized(px@, w as int, h as int, nw as int, nh as int),
        r@.len() == nw * nh * 4,
        nw == w && nh == h ==> r@ == px@,
{
    let img: image::ImageBuffer<image::Rgba<u8>, Vec<u8>> = image::ImageBuffer::from_raw(w, h, px).unwrap();
    image::imageops::resize(&img, nw, nh, image::imageops::FilterType::Nearest).into_raw()
}

/// The frame `g` (`w` by `h`) stretched to `sw` columns; a frame without
/// columns or rows stretches to an empty one.
pub open spec fn rescaled_grid(g: Grid, w: int, h: int, sw: int) -> Grid {
    if w == 0 || h == 0 || sw == 0 {
        blank(sw, h)
    } else {
        grid_of_bytes(nearest_resized(grid_bytes(g), w, h, sw, h), sw, h)
    }
}

proof fn lemma_row_bytes_len(row: Seq<Option<Cell>>)
    ensures
        row_bytes(row).len() == 4 * row.len(),
    decreases row.len(),
{
    if row.len() > 0 {
        lemma_row_bytes_len(row.drop_last());
    }
}

proof fn lemma_grid_bytes_len(g: Grid, w: int)
    requires
        forall|y: int| 0 <= y < g.len() ==> (#[trigger] g[y]).len() == w,
    ensures
        grid_bytes(g).len() == 4 * w * g.len(),
    decreases g.len(),
{
    if g.len() > 0 {
        let p = g.drop_last();
        assert forall|y: int| 0 <= y < p.len() implies (#[trigger] p[y]).len() == w by {
            assert(p[y] == g[y]);
        }
        lemma_grid_bytes_len(p, w);
        lemma_row_bytes_len(g.last());
        assert(4 * w * p.len() + 4 * w == 4 * w * g.len()) by (nonlinear_arith)
            requires
                p.len() + 1 == g.len(),
        ;
    }
}

proof fn lemma_row_bytes_index(row: Seq<Option<Cell>>, x: int, j: int)
    requires
        0 <= x < row.len(),
        0 <= j < 4,
    ensures
        row_bytes(row)[4 * x + j] == cell_bytes(row[x])[j],
    decreases row.len(),
{
    let p = row.drop_last();
    lemma_row_bytes_len(p);
    if x < row.len() - 1 {
        lemma_row_bytes_index(p, x, j);
        assert(p[x] == row[x]);
    }
}

proof fn lemma_grid_bytes_index(g: Grid, w: int, y: int, x: int, j: int)
    requires
        forall|k: int| 0 <= k < g.len() ==> (#[trigger] g[k]).len() == w,
        0 <= y < g.len(),
        0 <= x < w,
        0 <= j < 4,
    ensures
        grid_bytes(g)[(y * w + x) * 4 + j] == row_bytes(g[y])[4 * x + j],
    decreases g.len(),
{
    let p = g.drop_last();
    let n = g.len() - 1;
    assert forall|k: int| 0 <= k < p.len() implies (#[trigger] p[k]).len() == w by {
        assert(p[k] == g[k]);
    }
    lemma_grid_bytes_len(p, w);
    lemma_row_bytes_len(g.last());
    if y < n {
        assert((y * w + x) * 4 + j < 4 * w * n) by (nonlinear_arith)
            requires
                0 <= y < n,
                0 <= x < w,
                0 <= j < 4,
        ;
        lemma_grid_bytes_index(p, w, y, x, j);
        assert(p[y] == g[y]);
    } else {
        assert((y * w + x) * 4 + j == 4 * w * n + 4 * x + j) by (nonlinear_arith)
            requires
                y == n,
        ;
    }
}

/// Reading the bytes of a frame back gives the frame.
pub proof fn lemma_bytes_round_trip(g: Grid, w: int, h: int)
    requires
        grid_wf(g, w, h),
    ensures
        grid_of_bytes(grid_bytes(g), w, h) == g,
{
    let r = grid_of_bytes(grid_bytes(g), w, h);
    assert forall|y: int| 0 <= y < h implies (#[trigger] r[y]) == g[y] by {
        assert forall|x: int| 0 <= x < w implies (#[trigger] r[y][x]) == g[y][x] by {
            let i = (y * w + x) * 4;
            assert forall|j: int| 0 <= j < 4 implies grid_bytes(g)[i + j] == cell_bytes(g[y][x])[j] by {
                lemma_grid_bytes_index(g, w, y, x, j);
                lemma_row_bytes_index(g[y], x, j);
            }
            assert(grid_bytes(g)[i + 3] == cell_bytes(g[y][x])[3]);
            assert(grid_bytes(g)[i] == cell_bytes(g[y][x])[0]);
            assert(grid_bytes(g)[i + 1] == cell_bytes(g[y][x])[1]);
            assert(grid_bytes(g)[i + 2] == cell_bytes(g[y][x])[2]);
        }
        assert(r[y] =~= g[y]);
    }
    assert(r =~= g);
}

fn cell_to_bytes(c: &Option<Cell>, out: &mut Vec<u8>)
    ensures
        final(out)@ == old(out)@ + cell_bytes(*c),
{
    match c {
        Some(c) => {
            out.push(c.color.r);
            out.push(c.color.g);
            out.push(c.color.b);
            out.push(255);
        },
        None => {
            out.push(0);
            out.push(0);
            out.push(0);
            out.push(0);
        },
    }
    proof {
        assert(final(out)@ =~= old(out)@ + cell_bytes(*c));
    }
}

/// The frame as packed RGBA bytes, empty cells transparent.
pub fn matrix_to_pixels(m: &Matrix) -> (r: Vec<u8>)
    requires
        m.wf(),
    ensures
        r@ == grid_bytes(m.grid()),
        r@.len() == 4 * m.width * m.height,
{
    let g = Ghost(m.grid());
    let mut out: Vec<u8> = Vec::new();
    let mut y: usize = 0;
    while y < m.height
        invariant
            m.wf(),
            g@ == m.grid(),
            y <= m.height,
            out@ == grid_bytes(g@.take(y as int)),
        decreases m.height - y,
    {
        let row = &m.cells[y];
        assert(row@ == g@[y as int]);
        let ghost before = out@;
        let mut x: usize = 0;
        while x < row.len()
            invariant
                x <= row@.len(),
                out@ == before + row_bytes(row@.take(x as int)),
            decreases row.len() - x,
        {
            cell_to_bytes(&row[x], &mut out);
            proof {
                assert(row@.take(x + 1).drop_last() =~= row@.take(x as int));
                assert(row_bytes(row@.take(x + 1)) == row_bytes(row@.take(x as int)) + cell_bytes(row@[x as int]));
                assert(out@ =~= before + row_bytes(row@.take(x + 1)));
            }
            x = x + 1;
        }
        proof {
            assert(row@.take(x as int) =~= row@);
            assert(g@.take(y + 1).drop_last() =~= g@.take(y as int));
        }
        y = y + 1;
    }
    proof {
        assert(g@.take(y as int) =~= g@);
        lemma_grid_bytes_len(g@, m.width as int);
    }
    out
}

proof fn lemma_pixel_index(y: int, x: int, w: int, h: int)
    requires
        0 <= y < h,
        0 <= x < w,
    ensures
        0 <= (y * w + x) * 4,
        (y * w + x) * 4 + 4 <= w * h * 4,
{
    assert(0 <= (y * w + x) * 4 && (y * w + x) * 4 + 4 <= w * h * 4) by (nonlinear_arith)
        requires
            0 <= y < h,
            0 <= x < w,
    ;
}

/// Reads a `w` by `h` grid from packed RGBA bytes, transparent as empty.
pub fn pixels_to_cells(px: &Vec<u8>, w: usize, h: usize) -> (r: Vec<Vec<Option<Cell>>>)
    requires
        px@.len() == w * h * 4,
        w <= MAX_SIDE,
        h <= MAX_SIDE,
    ensures
        r@.map_values(|row: Vec<Option<Cell>>| row@) == grid_of_bytes(px@, w as int, h as int),
{
    let mut cells: Vec<Vec<Option<Cell>>> = Vec::new();
    let mut y: usize = 0;
    while y < h
        invariant
            px@.len() == w * h * 4,
            w <= MAX_SIDE,
            h <= MAX_SIDE,
            y <= h,
            cells@.len() == y,
            forall|j: int| 0 <= j < y ==> (#[trigger] cells@[j])@ == grid_of_bytes(px@, w as int, h as int)[j],
        decreases h - y,
    {
        let mut row: Vec<Option<Cell>> = Vec::new();
        let mut x: usize = 0;
        while x < w
            invariant
                px@.len() == w * h * 4,
                w <= MAX_SIDE,
                h <= MAX_SIDE,
                y < h,
                x <= w,
                row@ == grid_of_bytes(px@, w as int, h as int)[y as int].take(x as int),
            decreases w - x,
        {
            let n = px.len();
            proof {
                lemma_pixel_index(y as int, x as int, w as int, h as int);
                assert(y * w + x <= (y * w + x) * 4) by (nonlinear_arith)
                    requires
                        0 <= y * w + x,
                ;
                assert(0 <= y * w) by (nonlinear_arith)
                    requires
                        0 <= y,
                        0 <= w,
                ;
            }
            let i = (y * w + x) * 4;
            let cell = if px[i + 3] == 0 {
                None
            } else {
                Some(Cell { color: Rgb { r: px[i], g: px[i + 1], b: px[i + 2] } })
            };
            row.push(cell);
            proof {
                assert(row@ =~= grid_of_bytes(px@, w as int, h as int)[y as int].take(x + 1));
            }
            x = x + 1;
        }
        proof {
            assert(row@ =~= grid_of_bytes(px@, w as int, h as int)[y as int]);
        }
        cells.push(row);
        y = y + 1;
    }
    proof {
        assert(cells@.map_values(|row: Vec<Option<Cell>>| row@) =~= grid_of_bytes(px@, w as int, h as int));
    }
    cells
}

impl Matrix {
    /// Stretches the frame to `screen_width` columns by nearest-neighbour
    /// resampling; the height is kept.
    pub fn rescale(self, screen_width: usize) -> (r: Matrix)
        requires
            self.wf(),
            screen_width <= MAX_SIDE,
        ensures
            r.wf(),
            r.width == screen_width,
            r.height == self.height,
            screen_width == self.width ==> r.grid() == self.grid(),
            r.grid() == rescaled_grid(
                self.grid(),
                self.width as int,
                self.height as int,
                screen_width as int,
            ),
    {
        if self.width == 0 || self.height == 0 || screen_width == 0 {
            let r = Matrix::new(screen_width, self.height);
            proof {
                if screen_width == self.width {
                    assert forall|y: int| 0 <= y < self.height implies (#[trigger] r.grid()[y]) == self.grid()[y] by {
                        assert(r.grid()[y] =~= self.grid()[y]);
                    }
                    assert(r.grid() =~= self.grid());
                }
            }
            return r;
        }
        let h = self.height;
        let px = matrix_to_pixels(&self);
        assert(4 * self.width * h == self.width * h * 4) by (nonlinear_arith);
        let stretched = resize_nearest(px, self.width as u32, h as u32, screen_width as u32, h as u32);
        let cells = pixels_to_cells(&stretched, screen_width, h);
        let r = Matrix { cells, width: screen_width, height: h };
        proof {
            let g = grid_of_bytes(stretched@, screen_width as int, h as int);
            assert(r.grid() == g);
            assert forall|y: int| 0 <= y < h implies (#[trigger] g[y]).len() == screen_width by {}
            if screen_width == self.width {
                lemma_bytes_round_trip(self.grid(), self.width as int, h as int);
            }
        }
        r
    }
}

} // verus!
