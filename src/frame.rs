//! Frames: grids of coloured cells, and the drawing steps that fill them.

use crate::angle::{cosine, cosine_exec, sine, sine_exec, FULL_TURN, SINE_SCALE};
use crate::color::Rgb;
use crate::geometry::{
    chebyshev, circle_ring, in_limit, quarter_turn, turned_index, ipt, lemma_line_connected, lemma_line_points_within, ipts, line_points, pt, pts, rasterize_circle, rasterize_line,
};
use vstd::prelude::*;

verus! {

/// Largest frame side accepted; terminal coordinates are 16-bit.
pub const MAX_SIDE: usize = 65535;

/// A painted cell.
#[derive(Clone, Copy, Debug, PartialEq, Eq, Structural)]
pub struct Cell {
    pub color: Rgb,
}

/// Rows of cells, row 0 at the top; `None` is an empty cell.
pub type Grid = Seq<Seq<Option<Cell>>>;

/// A point to paint, in grid coordinates, with its colour.
#[derive(Clone, Copy, Debug, PartialEq, Eq, Structural)]
pub struct Point {
    pub x: isize,
    pub y: isize,
    pub color: Rgb,
}

/// One frame.
#[derive(Clone, Debug)]
pub struct Matrix {
    pub cells: Vec<Vec<Option<Cell>>>,
    pub width: usize,
    pub height: usize,
}

/// The grid of `w` by `h` empty cells.
pub open spec fn blank(w: int, h: int) -> Grid {
    Seq::new(h as nat, |y: int| Seq::new(w as nat, |x: int| None::<Cell>))
}

pub open spec fn grid_wf(g: Grid, w: int, h: int) -> bool {
    &&& g.len() == h
    &&& forall|y: int| 0 <= y < h ==> (#[trigger] g[y]).len() == w
}

pub open spec fn in_grid(w: int, h: int, p: (int, int)) -> bool {
    0 <= p.0 < w && 0 <= p.1 < h
}

/// `g` with the cell at `p` painted `c`; a point outside the grid leaves it as is.
pub open spec fn set_cell(g: Grid, w: int, h: int, p: (int, int), c: Rgb) -> Grid {
    if in_grid(w, h, p) {
        g.update(p.1, g[p.1].update(p.0, Some(Cell { color: c })))
    } else {
        g
    }
}

/// `g` with the points painted in order `c`, later points over earlier ones.
pub open spec fn paint(g: Grid, w: int, h: int, ps: Seq<(int, int)>, c: Rgb) -> Grid
    decreases ps.len(),
{
    if ps.len() == 0 {
        g
    } else {
        set_cell(paint(g, w, h, ps.drop_last(), c), w, h, ps.last(), c)
    }
}

/// `g` with each point painted in its own colour, in order.
pub open spec fn paint_points(g: Grid, w: int, h: int, ps: Seq<Point>) -> Grid
    decreases ps.len(),
{
    if ps.len() == 0 {
        g
    } else {
        let p = ps.last();
        set_cell(paint_points(g, w, h, ps.drop_last()), w, h, (p.x as int, p.y as int), p.color)
    }
}

impl Matrix {
    pub open spec fn grid(&self) -> Grid {
        self.cells@.map_values(|row: Vec<Option<Cell>>| row@)
    }

    pub open spec fn wf(&self) -> bool {
        &&& self.width <= MAX_SIDE
        &&& self.height <= MAX_SIDE
        &&& grid_wf(self.grid(), self.width as int, self.height as int)
    }

    /// An empty frame of the given size.
    pub fn new(width: usize, height: usize) -> (r: Matrix)
        requires
            width <= MAX_SIDE,
            height <= MAX_SIDE,
        ensures
            r.wf(),
            r.width == width,
            r.height == height,
            r.grid() == blank(width as int, height as int),
    {
        let mut cells: Vec<Vec<Option<Cell>>> = Vec::new();
        let mut y: usize = 0;
        while y < height
            invariant
                y <= height,
                cells@.len() == y,
                forall|j: int| 0 <= j < y ==> (#[trigger] cells@[j])@ == Seq::new(width as nat, |x: int| None::<Cell>),
            decreases height - y,
        {
            let mut row: Vec<Option<Cell>> = Vec::new();
            let mut x: usize = 0;
            while x < width
                invariant
                    x <= width,
                    row@ == Seq::new(x as nat, |i: int| None::<Cell>),
                decreases width - x,
            {
                row.push(None);
                x = x + 1;
                proof {
                    assert(row@ =~= Seq::new(x as nat, |i: int| None::<Cell>));
                }
            }
            cells.push(row);
            y = y + 1;
        }
        let r = Matrix { cells, width, height };
        assert(r.grid() =~= blank(width as int, height as int));
        r
    }

    /// Paints the cell at `(x, y)`; a point outside the frame is skipped.
    fn paint_cell(&mut self, x: isize, y: isize, color: Rgb)
        requires
            old(self).wf(),
        ensures
            final(self).wf(),
            final(self).width == old(self).width,
            final(self).height == old(self).height,
            final(self).grid() == set_cell(
                old(self).grid(),
                old(self).width as int,
                old(self).height as int,
                (x as int, y as int),
                color,
            ),
    {
        if 0 <= x && (x as usize) < self.width && 0 <= y && (y as usize) < self.height {
            let ghost g = self.grid();
            let yy = y as usize;
            let xx = x as usize;
            assert(self.cells@[yy as int]@ == g[yy as int]);
            self.cells[yy][xx] = Some(Cell { color });
            proof {
                assert(self.grid() =~= set_cell(g, self.width as int, self.height as int, (x as int, y as int), color));
            }
        }
    }

    /// Paints each point in its colour, in order.
    pub fn draw_using_points(&mut self, points: &Vec<Point>)
        requires
            old(self).wf(),
        ensures
            final(self).wf(),
            final(self).width == old(self).width,
            final(self).height == old(self).height,
            final(self).grid() == paint_points(
                old(self).grid(),
                old(self).width as int,
                old(self).height as int,
                points@,
            ),
    {
        let ghost g0 = self.grid();
        let mut i: usize = 0;
        while i < points.len()
            invariant
                self.wf(),
                self.width == old(self).width,
                self.height == old(self).height,
                g0 == old(self).grid(),
                i <= points@.len(),
                self.grid() == paint_points(g0, self.width as int, self.height as int, points@.take(i as int)),
            decreases points.len() - i,
        {
            let p = points[i];
            self.paint_cell(p.x, p.y, p.color);
            proof {
                assert(points@.take(i + 1).drop_last() =~= points@.take(i as int));
            }
            i = i + 1;
        }
        proof {
            assert(points@.take(i as int) =~= points@);
        }
    }
}

/// How a hand is stroked: one line, or nine lines whose origins form the
/// 3x3 block round the centre (a cheap stand-in for a thicker pen).
#[derive(Clone, Copy, Debug, PartialEq, Eq, Structural)]
pub enum HandThickness {
    Thin,
    Bold,
}

/// Where a hand's line begins: at the centre, or short of the rim so that it
/// reaches inwards from the circle as a tick mark.
#[derive(Clone, Copy, Debug, PartialEq, Eq, Structural)]
pub enum HandLineStart {
    FromCenter,
    FromCircumference,
}

/// A hand or tick mark.
#[derive(Clone, Copy, Debug, PartialEq, Eq, Structural)]
pub struct Hand {
    /// Angle units clockwise from twelve o'clock, below `FULL_TURN`.
    pub degree: u32,
    pub thickness: HandThickness,
    /// Percent of the face radius, at most 100.
    pub length: u32,
    pub line_start: HandLineStart,
    pub color: Rgb,
}

impl Hand {
    pub open spec fn wf(&self) -> bool {
        self.degree < FULL_TURN && self.length <= 100
    }
}

pub open spec fn min(a: int, b: int) -> int {
    if a <= b { a } else { b }
}

/// The face radius, `min(w / 2, h / 2) / 1.1`, rounded down.
pub open spec fn face_radius(w: int, h: int) -> int {
    min(w, h) * 5 / 11
}

/// The face circle painted onto `g`, centred on `(w / 2, h / 2)`.
pub open spec fn circle_grid(g: Grid, w: int, h: int, c: Rgb) -> Grid {
    paint(g, w, h, circle_ring(w / 2, h / 2, face_radius(w, h)), c)
}

/// The offsets of the line origins for a thickness.
pub open spec fn stencil(t: HandThickness) -> Seq<(int, int)> {
    match t {
        HandThickness::Thin => seq![(0, 0)],
        HandThickness::Bold => seq![
            (-1, 1),
            (0, 1),
            (1, 1),
            (-1, 0),
            (0, 0),
            (1, 0),
            (-1, -1),
            (0, -1),
            (1, -1),
        ],
    }
}

/// Division rounding towards zero, as a cast to an integer does.
pub open spec fn tdiv(n: int, d: int) -> int {
    if n >= 0 { n / d } else { -((-n) / d) }
}

/// Denominator shared by the half-cell centre, the 1.1 margin, the percent
/// length and the sine scale.
pub open spec fn polar_den() -> int {
    2200 * SINE_SCALE
}

/// The point `pct` percent of the face radius away from the origin
/// `(w / 2 + o.0, h / 2 + o.1)` in the direction whose scaled sine and cosine
/// are `s` and `c`, in Cartesian coordinates (y upwards), truncated to cells.
pub open spec fn polar_point(w: int, h: int, o: (int, int), pct: int, s: int, c: int) -> (int, int) {
    let span = min(w, h) * 10 * pct;
    (
        tdiv((w + 2 * o.0) * 1100 * SINE_SCALE + span * s, polar_den()),
        tdiv((h + 2 * o.1) * 1100 * SINE_SCALE + span * c, polar_den()),
    )
}

/// Start and end of a hand, in percent of the face radius.
pub open spec fn hand_extent(hand: Hand) -> (int, int) {
    match hand.line_start {
        HandLineStart::FromCenter => (0, hand.length as int),
        HandLineStart::FromCircumference => (100 - hand.length, 100),
    }
}

/// From Cartesian coordinates to grid rows: `row = h - y`.
pub open spec fn flip(h: int, p: (int, int)) -> (int, int) {
    (p.0, h - p.1)
}

/// The grid cells of the line drawn from origin offset `o`.
pub open spec fn stroke(w: int, h: int, hand: Hand, o: (int, int)) -> Seq<(int, int)> {
    let s = sine(hand.degree as int);
    let c = cosine(hand.degree as int);
    let ext = hand_extent(hand);
    line_points(polar_point(w, h, o, ext.0, s, c), polar_point(w, h, o, ext.1, s, c)).map_values(
        |p: (int, int)| flip(h, p),
    )
}

/// `g` with the strokes of the first `k` origins of the hand's stencil.
pub open spec fn hand_strokes(g: Grid, w: int, h: int, hand: Hand, k: int) -> Grid
    decreases k,
{
    if k <= 0 {
        g
    } else {
        paint(
            hand_strokes(g, w, h, hand, k - 1),
            w,
            h,
            stroke(w, h, hand, stencil(hand.thickness)[k - 1]),
            hand.color,
        )
    }
}

/// `g` with the hand drawn.
pub open spec fn hand_grid(g: Grid, w: int, h: int, hand: Hand) -> Grid {
    hand_strokes(g, w, h, hand, stencil(hand.thickness).len() as int)
}

/// Each stroke of a hand starts at its start point and ends at its end point
/// (both flipped to grid rows), and consecutive cells are 8-neighbours.
pub proof fn lemma_stroke_connected(w: int, h: int, hand: Hand, o: (int, int))
    ensures
        ({
            let s = sine(hand.degree as int);
            let c = cosine(hand.degree as int);
            let ext = hand_extent(hand);
            let st = stroke(w, h, hand, o);
            &&& st.len() > 0
            &&& st[0] == flip(h, polar_point(w, h, o, ext.0, s, c))
            &&& st.last() == flip(h, polar_point(w, h, o, ext.1, s, c))
            &&& forall|i: int| 0 <= i < st.len() - 1 ==> chebyshev(#[trigger] st[i], st[i + 1]) == 1
        }),
{
    let s = sine(hand.degree as int);
    let c = cosine(hand.degree as int);
    let ext = hand_extent(hand);
    let p0 = polar_point(w, h, o, ext.0, s, c);
    let p1 = polar_point(w, h, o, ext.1, s, c);
    let l = line_points(p0, p1);
    let st = stroke(w, h, hand, o);
    lemma_line_connected(p0, p1);
    assert forall|i: int| 0 <= i < st.len() - 1 implies chebyshev(#[trigger] st[i], st[i + 1]) == 1 by {
        assert(chebyshev(l[i], l[i + 1]) == 1);
        assert(st[i] == flip(h, l[i]));
        assert(st[i + 1] == flip(h, l[i + 1]));
    }
}

/// The ring of the face circle of a `w` by `h` frame.
pub open spec fn face_ring(w: int, h: int) -> Seq<(int, int)> {
    circle_ring(w / 2, h / 2, face_radius(w, h))
}

/// Every point of the face ring lies inside the frame.
pub open spec fn ring_in_frame(w: int, h: int) -> bool {
    forall|i: int| 0 <= i < face_ring(w, h).len() ==> in_grid(w, h, #[trigger] face_ring(w, h)[i])
}

/// Each cell painted in `new` but empty in `old` has its quarter turn about
/// `(cx, cy)` painted in `new` too.
pub open spec fn new_cells_turn_closed(old: Grid, new: Grid, w: int, h: int, cx: int, cy: int) -> bool {
    forall|x: int, y: int|
        #![trigger new[y][x]]
        in_grid(w, h, (x, y)) && new[y][x] is Some && old[y][x] is None ==> ({
            let t = quarter_turn(cx, cy, (x, y));
            in_grid(w, h, t) && new[t.1][t.0] is Some
        })
}

/// A cell of a painted grid is painted exactly when it was before or one of
/// the points is on it.
proof fn lemma_paint_membership(g: Grid, w: int, h: int, ps: Seq<(int, int)>, c: Rgb, x: int, y: int)
    requires
        grid_wf(g, w, h),
        in_grid(w, h, (x, y)),
    ensures
        grid_wf(paint(g, w, h, ps, c), w, h),
        paint(g, w, h, ps, c)[y][x] is Some <==> (g[y][x] is Some || exists|i: int|
            0 <= i < ps.len() && #[trigger] ps[i] == (x, y)),
    decreases ps.len(),
{
    if ps.len() > 0 {
        let q = ps.drop_last();
        lemma_paint_membership(g, w, h, q, c, x, y);
        if exists|i: int| 0 <= i < q.len() && #[trigger] q[i] == (x, y) {
            let i = choose|i: int| 0 <= i < q.len() && #[trigger] q[i] == (x, y);
            assert(ps[i] == (x, y));
        }
        if exists|i: int| 0 <= i < ps.len() && #[trigger] ps[i] == (x, y) {
            let i = choose|i: int| 0 <= i < ps.len() && #[trigger] ps[i] == (x, y);
            if i < q.len() {
                assert(q[i] == (x, y));
            }
        }
    }
}

proof fn lemma_ring_painting_turn_closed(g: Grid, w: int, h: int, ps: Seq<(int, int)>, c: Rgb, cx: int, cy: int)
    requires
        grid_wf(g, w, h),
        forall|i: int| 0 <= i < ps.len() ==> in_grid(w, h, #[trigger] ps[i]),
        forall|i: int|
            #![trigger turned_index(i)]
            0 <= i < ps.len() ==> 0 <= turned_index(i) < ps.len() && ps[turned_index(i)]
                == quarter_turn(cx, cy, ps[i]),
    ensures
        new_cells_turn_closed(g, paint(g, w, h, ps, c), w, h, cx, cy),
{
    let n = paint(g, w, h, ps, c);
    assert forall|x: int, y: int|
        #![trigger n[y][x]]
        in_grid(w, h, (x, y)) && n[y][x] is Some && g[y][x] is None implies ({
            let t = quarter_turn(cx, cy, (x, y));
            in_grid(w, h, t) && n[t.1][t.0] is Some
        }) by {
        lemma_paint_membership(g, w, h, ps, c, x, y);
        let i = choose|i: int| 0 <= i < ps.len() && #[trigger] ps[i] == (x, y);
        let k = turned_index(i);
        let t = quarter_turn(cx, cy, (x, y));
        assert(ps[k] == t);
        assert(in_grid(w, h, ps[k]));
        lemma_paint_membership(g, w, h, ps, c, t.0, t.1);
    }
}

fn stencil_offsets(t: HandThickness) -> (r: Vec<(i64, i64)>)
    ensures
        r@.len() == stencil(t).len(),
        forall|i: int| 0 <= i < r@.len() ==> (#[trigger] r@[i]).0 as int == stencil(t)[i].0 && r@[i].1 as int == stencil(t)[i].1,
        forall|i: int| 0 <= i < r@.len() ==> -1 <= (#[trigger] r@[i]).0 <= 1 && -1 <= r@[i].1 <= 1,
{
    match t {
        HandThickness::Thin => vec![(0, 0)],
        HandThickness::Bold => vec![
            (-1, 1),
            (0, 1),
            (1, 1),
            (-1, 0),
            (0, 0),
            (1, 0),
            (-1, -1),
            (0, -1),
            (1, -1),
        ],
    }
}

fn tdiv_exec(n: i64, d: i64) -> (r: i64)
    requires
        d > 0,
        n > i64::MIN,
    ensures
        r == tdiv(n as int, d as int),
{
    if n >= 0 {
        n / d
    } else {
        -((-n) / d)
    }
}

proof fn lemma_tdiv_bound(n: int, d: int, k: int)
    requires
        d > 0,
        k > 0,
        -(k * d) < n < k * d,
    ensures
        -k < tdiv(n, d) < k,
{
    if n >= 0 {
        assert(n / d < k) by (nonlinear_arith)
            requires
                0 <= n < k * d,
                d > 0,
        ;
        vstd::arithmetic::div_mod::lemma_div_pos_is_pos(n, d);
    } else {
        assert((-n) / d < k) by (nonlinear_arith)
            requires
                0 <= -n < k * d,
                d > 0,
        ;
        vstd::arithmetic::div_mod::lemma_div_pos_is_pos(-n, d);
    }
}

fn polar_point_exec(w: usize, h: usize, ox: i64, oy: i64, pct: u32, s: i64, c: i64) -> (r: (isize, isize))
    requires
        w <= MAX_SIDE,
        h <= MAX_SIDE,
        -1 <= ox <= 1,
        -1 <= oy <= 1,
        pct <= 100,
        -SINE_SCALE <= s <= SINE_SCALE,
        -SINE_SCALE <= c <= SINE_SCALE,
    ensures
        pt(r) == polar_point(w as int, h as int, (ox as int, oy as int), pct as int, s as int, c as int),
        in_limit(r),
{
    let m: i64 = if w <= h { w as i64 } else { h as i64 };
    assert(0 <= m * 10 * (pct as i64) <= 65535 * 1000) by (nonlinear_arith)
        requires
            0 <= m <= 65535,
            pct <= 100,
    ;
    let span = m * 10 * (pct as i64);
    assert(-65535 * 1000 * SINE_SCALE <= span * s <= 65535 * 1000 * SINE_SCALE) by (nonlinear_arith)
        requires
            0 <= span <= 65535 * 1000,
            -SINE_SCALE <= s <= SINE_SCALE,
    ;
    assert(-65535 * 1000 * SINE_SCALE <= span * c <= 65535 * 1000 * SINE_SCALE) by (nonlinear_arith)
        requires
            0 <= span <= 65535 * 1000,
            -SINE_SCALE <= c <= SINE_SCALE,
    ;
    let nx = (w as i64 + 2 * ox) * 1100 * SINE_SCALE + span * s;
    let ny = (h as i64 + 2 * oy) * 1100 * SINE_SCALE + span * c;
    let den = 2200 * SINE_SCALE;
    proof {
        lemma_tdiv_bound(nx as int, den as int, 0x4000_0000);
        lemma_tdiv_bound(ny as int, den as int, 0x4000_0000);
    }
    let x = tdiv_exec(nx, den);
    let y = tdiv_exec(ny, den);
    (x as isize, y as isize)
}

impl Matrix {
    /// Paints the face circle in `color`.
    pub fn draw_circle(&mut self, color: Rgb)
        requires
            old(self).wf(),
        ensures
            final(self).wf(),
            final(self).width == old(self).width,
            final(self).height == old(self).height,
            final(self).grid() == circle_grid(
                old(self).grid(),
                old(self).width as int,
                old(self).height as int,
                color,
            ),
            ring_in_frame(old(self).width as int, old(self).height as int) ==> new_cells_turn_closed(
                old(self).grid(),
                final(self).grid(),
                old(self).width as int,
                old(self).height as int,
                old(self).width as int / 2,
                old(self).height as int / 2,
            ),
    {
        let w = self.width;
        let h = self.height;
        let m = if w <= h { w } else { h };
        let radius = (m * 5 / 11) as i32;
        let ring = rasterize_circle((w / 2) as i32, (h / 2) as i32, radius);
        let ghost g0 = self.grid();
        let ghost ps = ipts(ring@);
        let mut i: usize = 0;
        while i < ring.len()
            invariant
                self.wf(),
                self.width == w,
                self.height == h,
                i <= ring@.len(),
                ps == ipts(ring@),
                self.grid() == paint(g0, w as int, h as int, ps.take(i as int), color),
            decreases ring.len() - i,
        {
            let (x, y) = ring[i];
            self.paint_cell(x as isize, y as isize, color);
            proof {
                assert(ps.take(i + 1).drop_last() =~= ps.take(i as int));
                assert(ps.take(i + 1).last() == ipt(ring@[i as int]));
            }
            i = i + 1;
        }
        proof {
            assert(ps.take(i as int) =~= ps);
            assert(ps == face_ring(w as int, h as int));
            if ring_in_frame(w as int, h as int) {
                assert forall|i: int|
                    #![trigger turned_index(i)]
                    0 <= i < ps.len() implies 0 <= turned_index(i) < ps.len() && ps[turned_index(i)]
                        == quarter_turn(w as int / 2, h as int / 2, ps[i]) by {
                    assert(ps[i] == ipt(ring@[i]));
                    assert(ps[turned_index(i)] == ipt(ring@[turned_index(i)]));
                }
                lemma_ring_painting_turn_closed(g0, w as int, h as int, ps, color, w as int / 2, h as int / 2);
            }
        }
    }

    /// Paints `cells`, flipped from Cartesian rows, in `color`.
    fn draw_line_cells(&mut self, line: &Vec<(isize, isize)>, color: Rgb)
        requires
            old(self).wf(),
            forall|i: int| 0 <= i < line@.len() ==> in_limit(#[trigger] line@[i]),
        ensures
            final(self).wf(),
            final(self).width == old(self).width,
            final(self).height == old(self).height,
            final(self).grid() == paint(
                old(self).grid(),
                old(self).width as int,
                old(self).height as int,
                pts(line@).map_values(|p: (int, int)| flip(old(self).height as int, p)),
                color,
            ),
    {
        let h = self.height;
        let ghost g0 = self.grid();
        let ghost ps = pts(line@).map_values(|p: (int, int)| flip(h as int, p));
        let mut i: usize = 0;
        while i < line.len()
            invariant
                self.wf(),
                self.width == old(self).width,
                self.height == h,
                g0 == old(self).grid(),
                h == old(self).height,
                i <= line@.len(),
                forall|i: int| 0 <= i < line@.len() ==> in_limit(#[trigger] line@[i]),
                ps == pts(line@).map_values(|p: (int, int)| flip(h as int, p)),
                self.grid() == paint(g0, self.width as int, h as int, ps.take(i as int), color),
            decreases line.len() - i,
        {
            let (x, y) = line[i];
            assert(in_limit(line@[i as int]));
            self.paint_cell(x, h as isize - y, color);
            proof {
                assert(ps.take(i + 1).drop_last() =~= ps.take(i as int));
                assert(ps.take(i + 1).last() == flip(h as int, pt(line@[i as int])));
            }
            i = i + 1;
        }
        proof {
            assert(ps.take(i as int) =~= ps);
        }
    }

    /// Draws the line of `hand` from origin offset `(ox, oy)`.
    fn draw_stroke(&mut self, hand: &Hand, ox: i64, oy: i64, from: u32, to: u32, s: i64, c: i64)
        requires
            old(self).wf(),
            hand.wf(),
            s == sine(hand.degree as int),
            c == cosine(hand.degree as int),
            -SINE_SCALE <= s <= SINE_SCALE,
            -SINE_SCALE <= c <= SINE_SCALE,
            (from as int, to as int) == hand_extent(*hand),
            from <= 100,
            to <= 100,
            -1 <= ox <= 1,
            -1 <= oy <= 1,
        ensures
            final(self).wf(),
            final(self).width == old(self).width,
            final(self).height == old(self).height,
            final(self).grid() == paint(
                old(self).grid(),
                old(self).width as int,
                old(self).height as int,
                stroke(old(self).width as int, old(self).height as int, *hand, (ox as int, oy as int)),
                hand.color,
            ),
    {
        let w = self.width;
        let h = self.height;
        let start = polar_point_exec(w, h, ox, oy, from, s, c);
        let end = polar_point_exec(w, h, ox, oy, to, s, c);
        let line = rasterize_line(start, end);
        proof {
            assert forall|i: int| 0 <= i < line@.len() implies in_limit(#[trigger] line@[i]) by {
                assert(pts(line@)[i] == pt(line@[i]));
                lemma_line_points_within(pt(start), pt(end), i);
            }
        }
        self.draw_line_cells(&line, hand.color);
        proof {
            assert(pts(line@).map_values(|p: (int, int)| flip(h as int, p)) =~= stroke(w as int, h as int, *hand, (ox as int, oy as int)));
        }
    }

    /// Draws a hand: one line per origin of its stencil, from its start to
    /// its end fraction of the face radius, rows flipped from Cartesian.
    pub fn draw_hand(&mut self, hand: &Hand)
        requires
            old(self).wf(),
            hand.wf(),
        ensures
            final(self).wf(),
            final(self).width == old(self).width,
            final(self).height == old(self).height,
            final(self).grid() == hand_grid(
                old(self).grid(),
                old(self).width as int,
                old(self).height as int,
                *hand,
            ),
    {
        let w = self.width;
        let h = self.height;
        let s = sine_exec(hand.degree);
        let c = cosine_exec(hand.degree);
        let (from, to) = match hand.line_start {
            HandLineStart::FromCenter => (0u32, hand.length),
            HandLineStart::FromCircumference => (100 - hand.length, 100u32),
        };
        let origins = stencil_offsets(hand.thickness);
        let ghost g0 = self.grid();
        let mut k: usize = 0;
        while k < origins.len()
            invariant
                self.wf(),
                self.width == w,
                self.height == h,
                w == old(self).width,
                h == old(self).height,
                g0 == old(self).grid(),
                hand.wf(),
                s == sine(hand.degree as int),
                c == cosine(hand.degree as int),
                -SINE_SCALE <= s <= SINE_SCALE,
                -SINE_SCALE <= c <= SINE_SCALE,
                (from as int, to as int) == hand_extent(*hand),
                from <= 100,
                to <= 100,
                origins@.len() == stencil(hand.thickness).len(),
                forall|i: int| 0 <= i < origins@.len() ==> (#[trigger] origins@[i]).0 as int == stencil(hand.thickness)[i].0 && origins@[i].1 as int == stencil(hand.thickness)[i].1,
                forall|i: int| 0 <= i < origins@.len() ==> -1 <= (#[trigger] origins@[i]).0 <= 1 && -1 <= origins@[i].1 <= 1,
                k <= origins@.len(),
                self.grid() == hand_strokes(g0, w as int, h as int, *hand, k as int),
            decreases origins.len() - k,
        {
            let (ox, oy) = origins[k];
            self.draw_stroke(hand, ox, oy, from, to, s, c);
            assert(stencil(hand.thickness)[k as int] == (ox as int, oy as int));
            k = k + 1;
        }
    }
}

} // verus!
