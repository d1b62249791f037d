//! Cell-by-cell differences between two frames.

use crate::frame::{blank, grid_wf, Cell, Grid, Matrix};
use vstd::prelude::*;

verus! {

/// One cell to redraw, with what it now holds.
#[derive(Clone, Copy, Debug, PartialEq, Eq, Structural)]
pub struct DiffUpdate {
    pub x: usize,
    pub y: usize,
    pub cell: Option<Cell>,
}

/// The `k`-th position in row-major order on a grid `w` wide.
pub open spec fn position(w: int, k: int) -> (int, int) {
    (k % w, k / w)
}

/// The updates for the first `k` positions, in row-major order: one for each
/// position where `a` and `b` differ, carrying `b`'s cell.
pub open spec fn diff_prefix(a: Grid, b: Grid, w: int, k: int) -> Seq<DiffUpdate>
    decreases k,
{
    if k <= 0 {
        Seq::empty()
    } else {
        let prev = diff_prefix(a, b, w, k - 1);
        let p = position(w, k - 1);
        if a[p.1][p.0] != b[p.1][p.0] {
            prev.push(DiffUpdate { x: p.0 as usize, y: p.1 as usize, cell: b[p.1][p.0] })
        } else {
            prev
        }
    }
}

/// The painted cells among the first `k` positions, in row-major order.
pub open spec fn painted_prefix(b: Grid, w: int, k: int) -> Seq<DiffUpdate>
    decreases k,
{
    if k <= 0 {
        Seq::empty()
    } else {
        let prev = painted_prefix(b, w, k - 1);
        let p = position(w, k - 1);
        if b[p.1][p.0] is Some {
            prev.push(DiffUpdate { x: p.0 as usize, y: p.1 as usize, cell: b[p.1][p.0] })
        } else {
            prev
        }
    }
}

/// All positions of a `w` by `h` grid, row by row.
pub fn generate_points(width: usize, height: usize) -> (r: Vec<(usize, usize)>)
    requires
        width * height <= usize::MAX,
    ensures
        r@.len() == width * height,
        forall|k: int|
            0 <= k < r@.len() ==> (#[trigger] r@[k]).0 as int == position(width as int, k).0
                && r@[k].1 as int == position(width as int, k).1,
{
    let mut r: Vec<(usize, usize)> = Vec::new();
    let mut y: usize = 0;
    while y < height
        invariant
            width * height <= usize::MAX,
            y <= height,
            r@.len() == y * width,
            forall|k: int|
                0 <= k < r@.len() ==> (#[trigger] r@[k]).0 as int == position(width as int, k).0
                    && r@[k].1 as int == position(width as int, k).1,
        decreases height - y,
    {
        let mut x: usize = 0;
        assert(y * width + width <= width * height) by (nonlinear_arith)
            requires
                y < height,
        ;
        while x < width
            invariant
                width * height <= usize::MAX,
                y < height,
                x <= width,
                y * width + width <= width * height,
                r@.len() == y * width + x,
                forall|k: int|
                    0 <= k < r@.len() ==> (#[trigger] r@[k]).0 as int == position(width as int, k).0
                        && r@[k].1 as int == position(width as int, k).1,
            decreases width - x,
        {
            proof {
                vstd::arithmetic::div_mod::lemma_fundamental_div_mod_converse(
                    (y * width + x) as int,
                    width as int,
                    y as int,
                    x as int,
                );
            }
            r.push((x, y));
            x = x + 1;
        }
        assert(y * width + width == (y + 1) * width) by (nonlinear_arith);
        y = y + 1;
    }
    assert(height * width == width * height) by (nonlinear_arith);
    r
}

fn same_cell(a: &Option<Cell>, b: &Option<Cell>) -> (r: bool)
    ensures
        r == (*a == *b),
{
    match (a, b) {
        (None, None) => true,
        (Some(p), Some(q)) => p.color.r == q.color.r && p.color.g == q.color.g && p.color.b
            == q.color.b,
        _ => false,
    }
}

proof fn lemma_position_in_grid(w: int, h: int, k: int)
    requires
        0 <= k < w * h,
        w > 0,
    ensures
        0 <= position(w, k).0 < w,
        0 <= position(w, k).1 < h,
{
    vstd::arithmetic::div_mod::lemma_mod_bound(k, w);
    vstd::arithmetic::div_mod::lemma_div_pos_is_pos(k, w);
    vstd::arithmetic::div_mod::lemma_fundamental_div_mod(k, w);
    let q = k / w;
    let r = k % w;
    if q >= h {
        assert(k >= w * h) by (nonlinear_arith)
            requires
                k == w * q + r,
                0 <= r,
                q >= h,
                w > 0,
        ;
    }
}

impl Matrix {
    /// The cells that changed from `self` to `new`, row by row, each with
    /// its new content.
    pub fn diff(&self, new: &Matrix) -> (r: Vec<DiffUpdate>)
        requires
            self.wf(),
            new.wf(),
            self.width == new.width,
            self.height == new.height,
        ensures
            r@ == diff_prefix(
                self.grid(),
                new.grid(),
                self.width as int,
                self.width * self.height,
            ),
    {
        assert(self.width * self.height <= 65535 * 65535) by (nonlinear_arith)
            requires
                self.width <= 65535,
                self.height <= 65535,
        ;
        let points = generate_points(self.width, self.height);
        let mut r: Vec<DiffUpdate> = Vec::new();
        let mut k: usize = 0;
        while k < points.len()
            invariant
                self.wf(),
                new.wf(),
                self.width == new.width,
                self.height == new.height,
                points@.len() == self.width * self.height,
                forall|k: int|
                    0 <= k < points@.len() ==> (#[trigger] points@[k]).0 as int == position(
                        self.width as int,
                        k,
                    ).0 && points@[k].1 as int == position(self.width as int, k).1,
                k <= points@.len(),
                r@ == diff_prefix(self.grid(), new.grid(), self.width as int, k as int),
            decreases points.len() - k,
        {
            let (x, y) = points[k];
            proof {
                lemma_position_in_grid(self.width as int, self.height as int, k as int);
                assert(self.cells@[y as int]@ == self.grid()[y as int]);
                assert(new.cells@[y as int]@ == new.grid()[y as int]);
            }
            let old_cell = &self.cells[y][x];
            let new_cell = &new.cells[y][x];
            if !same_cell(old_cell, new_cell) {
                r.push(DiffUpdate { x, y, cell: *new_cell });
            }
            k = k + 1;
        }
        r
    }
}

/// Diffing a frame against itself yields no update.
pub proof fn lemma_diff_identical_is_empty(g: Grid, w: int, k: int)
    ensures
        diff_prefix(g, g, w, k) == Seq::<DiffUpdate>::empty(),
    decreases k,
{
    if k > 0 {
        lemma_diff_identical_is_empty(g, w, k - 1);
    }
}

/// Diffing an empty frame against a frame yields exactly its painted cells,
/// one update each, in row-major order.
pub proof fn lemma_diff_from_blank(g: Grid, w: int, h: int, k: int)
    requires
        grid_wf(g, w, h),
        0 <= k <= w * h,
    ensures
        diff_prefix(blank(w, h), g, w, k) == painted_prefix(g, w, k),
    decreases k,
{
    if k > 0 {
        lemma_diff_from_blank(g, w, h, k - 1);
        if w > 0 {
            lemma_position_in_grid(w, h, k - 1);
        } else {
            assert(w * h == 0) by (nonlinear_arith) requires w <= 0, w * h >= k, k > 0, h >= 0;
        }
    }
}

} // verus!
