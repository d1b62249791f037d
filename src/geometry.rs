//! Integer rasterisation of lines and circles.

use vstd::prelude::*;

verus! {

/// Largest magnitude accepted for a coordinate handed to the rasterisers.
pub const COORD_LIMIT: i64 = 0x4000_0000;

pub open spec fn abs(v: int) -> int {
    if v < 0 { -v } else { v }
}

pub open spec fn sgn(v: int) -> int {
    if v > 0 { 1 } else if v < 0 { -1 } else { 0 }
}

pub open spec fn chebyshev(a: (int, int), b: (int, int)) -> int {
    let dx = abs(a.0 - b.0);
    let dy = abs(a.1 - b.1);
    if dx >= dy { dx } else { dy }
}

/// Number of points the stepping line visits before reaching `p1`.
pub open spec fn line_span(p0: (int, int), p1: (int, int)) -> int {
    let dx = abs(p1.0 - p0.0);
    let dy = abs(p1.1 - p0.1);
    if dx >= dy { dx } else { dy }
}

/// The `i`-th point of the stepping line from `p0` towards `p1`: the dominant
/// axis advances by one per step, the other by the floor of its share.
#[verifier::opaque]
pub open spec fn line_step(p0: (int, int), p1: (int, int), i: int) -> (int, int) {
    let dx = p1.0 - p0.0;
    let dy = p1.1 - p0.1;
    if abs(dx) >= abs(dy) {
        (p0.0 + sgn(dx) * i, p0.1 + sgn(dy) * (i * abs(dy) / abs(dx)))
    } else {
        (p0.0 + sgn(dx) * (i * abs(dx) / abs(dy)), p0.1 + sgn(dy) * i)
    }
}

/// The points from `p0` up to, but not including, `p1`.
pub open spec fn line_steps(p0: (int, int), p1: (int, int)) -> Seq<(int, int)> {
    Seq::new(line_span(p0, p1) as nat, |i: int| line_step(p0, p1, i))
}

/// The rasterised segment from `p0` to `p1`, both ends included.
pub open spec fn line_points(p0: (int, int), p1: (int, int)) -> Seq<(int, int)> {
    line_steps(p0, p1).push(p1)
}

pub open spec fn pt(p: (isize, isize)) -> (int, int) {
    (p.0 as int, p.1 as int)
}

pub open spec fn pts(s: Seq<(isize, isize)>) -> Seq<(int, int)> {
    s.map_values(|p: (isize, isize)| pt(p))
}

pub open spec fn within(p: (int, int)) -> bool {
    -COORD_LIMIT <= p.0 <= COORD_LIMIT && -COORD_LIMIT <= p.1 <= COORD_LIMIT
}

pub open spec fn in_limit(p: (isize, isize)) -> bool {
    within(pt(p))
}

/// Relies on bresenham::Bresenham: the iterator visits the points from
/// `start` up to but excluding `end`. Mapped to its first octant it moves x by
/// one per step and raises y when its error term `dy - dx + (i + 1) * dy - k * dx`
/// is non-negative, which keeps y at `floor(i * dy / dx)` after `i` steps.
#[verifier::external_body]
fn bresenham_steps(start: (isize, isize), end: (isize, isize)) -> (r: Vec<(isize, isize)>)
    requires
        in_limit(start),
        in_limit(end),
    ensures
        pts(r@) == line_steps(pt(start), pt(end)),
{
    bresenham::Bresenham::new(start, end).collect()
}

proof fn lemma_floor_step(i: int, m: int, n: int)
    requires
        0 <= i,
        0 <= m <= n,
        0 < n,
    ensures
        0 <= i * m / n,
        (i + 1) * m / n == i * m / n || (i + 1) * m / n == i * m / n + 1,
{
    let a = i * m;
    assert(0 <= i * m) by (nonlinear_arith)
        requires
            0 <= i,
            0 <= m,
    ;
    assert((i + 1) * m == i * m + m) by (nonlinear_arith);
    let q = a / n;
    let r = a % n;
    vstd::arithmetic::div_mod::lemma_fundamental_div_mod(a, n);
    vstd::arithmetic::div_mod::lemma_mod_bound(a, n);
    vstd::arithmetic::div_mod::lemma_div_pos_is_pos(a, n);
    assert(n * q == q * n) by (nonlinear_arith);
    if r + m < n {
        vstd::arithmetic::div_mod::lemma_fundamental_div_mod_converse(a + m, n, q, r + m);
    } else {
        assert((q + 1) * n == q * n + n) by (nonlinear_arith);
        vstd::arithmetic::div_mod::lemma_fundamental_div_mod_converse(a + m, n, q + 1, r + m - n);
    }
}

proof fn lemma_floor_last(m: int, n: int)
    requires
        0 <= m <= n,
        0 < n,
    ensures
        (n - 1) * m / n == m || (n - 1) * m / n == m - 1,
{
    lemma_floor_step(n - 1, m, n);
    assert(n * m / n == m) by {
        vstd::arithmetic::div_mod::lemma_div_by_multiple(m, n);
        assert(n * m == m * n) by (nonlinear_arith);
    }
    assert((n - 1 + 1) * m == n * m);
}

/// Consecutive points of the stepping line are 8-neighbours.
proof fn lemma_steps_connected(p0: (int, int), p1: (int, int), i: int)
    requires
        0 <= i,
        i + 1 < line_span(p0, p1),
    ensures
        chebyshev(line_step(p0, p1, i), line_step(p0, p1, i + 1)) == 1,
{
    reveal(line_step);
    let dx = p1.0 - p0.0;
    let dy = p1.1 - p0.1;
    if abs(dx) >= abs(dy) {
        lemma_floor_step(i, abs(dy), abs(dx));
    } else {
        lemma_floor_step(i, abs(dx), abs(dy));
    }
}

/// The last stepping point is an 8-neighbour of the end point.
proof fn lemma_last_step_touches_end(p0: (int, int), p1: (int, int))
    requires
        line_span(p0, p1) > 0,
    ensures
        chebyshev(line_step(p0, p1, line_span(p0, p1) - 1), p1) == 1,
{
    reveal(line_step);
    let dx = p1.0 - p0.0;
    let dy = p1.1 - p0.1;
    if abs(dx) >= abs(dy) {
        lemma_floor_last(abs(dy), abs(dx));
    } else {
        lemma_floor_last(abs(dx), abs(dy));
    }
}

proof fn lemma_first_step(p0: (int, int), p1: (int, int))
    ensures
        line_step(p0, p1, 0) == p0,
{
    reveal(line_step);
    assert(0 * abs(p1.1 - p0.1) == 0 && 0 * abs(p1.0 - p0.0) == 0);
}

proof fn lemma_share_bound(i: int, m: int, n: int)
    requires
        0 <= i < n,
        0 <= m,
    ensures
        0 <= i * m / n <= m,
{
    assert(0 <= i * m <= n * m) by (nonlinear_arith)
        requires
            0 <= i < n,
            0 <= m,
    ;
    vstd::arithmetic::div_mod::lemma_div_pos_is_pos(i * m, n);
    vstd::arithmetic::div_mod::lemma_div_is_ordered(i * m, n * m, n);
    vstd::arithmetic::div_mod::lemma_div_by_multiple(m, n);
    assert(n * m == m * n) by (nonlinear_arith);
}

/// Every point of a segment lies in the box spanned by its ends.
pub proof fn lemma_line_points_within(p0: (int, int), p1: (int, int), i: int)
    requires
        within(p0),
        within(p1),
        0 <= i < line_points(p0, p1).len(),
    ensures
        within(line_points(p0, p1)[i]),
{
    if i < line_span(p0, p1) {
        reveal(line_step);
        let dx = p1.0 - p0.0;
        let dy = p1.1 - p0.1;
        if abs(dx) >= abs(dy) {
            lemma_share_bound(i, abs(dy), abs(dx));
        } else {
            lemma_share_bound(i, abs(dx), abs(dy));
        }
    }
}

/// Every rasterised segment starts at `p0`, ends at `p1`, and each pair of
/// consecutive points is at Chebyshev distance one.
pub proof fn lemma_line_connected(p0: (int, int), p1: (int, int))
    ensures
        line_points(p0, p1)[0] == p0,
        line_points(p0, p1).last() == p1,
        forall|i: int|
            0 <= i < line_points(p0, p1).len() - 1 ==> chebyshev(
                #[trigger] line_points(p0, p1)[i],
                line_points(p0, p1)[i + 1],
            ) == 1,
{
    let s = line_points(p0, p1);
    let n = line_span(p0, p1);
    if n > 0 {
        lemma_first_step(p0, p1);
        assert(s[0] == line_step(p0, p1, 0));
    }
    assert forall|i: int| 0 <= i < s.len() - 1 implies chebyshev(#[trigger] s[i], s[i + 1]) == 1 by {
        if i + 1 < n {
            lemma_steps_connected(p0, p1, i);
        } else {
            lemma_last_step_touches_end(p0, p1);
        }
    }
}

/// Rasterises the segment from `p0` to `p1` with Bresenham's method, both
/// ends included.
pub fn rasterize_line(p0: (isize, isize), p1: (isize, isize)) -> (r: Vec<(isize, isize)>)
    requires
        in_limit(p0),
        in_limit(p1),
    ensures
        pts(r@) == line_points(pt(p0), pt(p1)),
        pt(r@[0]) == pt(p0),
        r@.last() == p1,
        forall|i: int|
            0 <= i < r@.len() - 1 ==> chebyshev(#[trigger] pt(r@[i]), pt(r@[i + 1])) == 1,
{
    let mut r = bresenham_steps(p0, p1);
    r.push(p1);
    proof {
        assert(pts(r@) =~= line_points(pt(p0), pt(p1)));
        lemma_line_connected(pt(p0), pt(p1));
        assert forall|i: int| 0 <= i < r@.len() - 1 implies chebyshev(
            #[trigger] pt(r@[i]),
            pt(r@[i + 1]),
        ) == 1 by {
            assert(pt(r@[i]) == pts(r@)[i]);
            assert(pt(r@[i + 1]) == pts(r@)[i + 1]);
        }
        assert(pt(r@[0]) == pts(r@)[0]);
    }
    r
}

/// The ring of points that the integer circle walk produces, in its order.
pub uninterp spec fn circle_ring(cx: int, cy: int, radius: int) -> Seq<(int, int)>;

/// `p` turned a quarter turn about `(cx, cy)`.
pub open spec fn quarter_turn(cx: int, cy: int, p: (int, int)) -> (int, int) {
    (cx - (p.1 - cy), cy + (p.0 - cx))
}

/// The walk emits its points in groups of four, each a quarter turn of the
/// one before it.
#[verifier::opaque]
pub open spec fn ring_turns(cx: int, cy: int, s: Seq<(int, int)>) -> bool {
    &&& s.len() % 4 == 0
    &&& forall|i: int|
        #![trigger s[i + 1], s[i]]
        0 <= i < s.len() && i % 4 != 3 ==> s[i + 1] == quarter_turn(cx, cy, s[i])
    &&& forall|i: int|
        #![trigger s[i - 3], s[i]]
        0 <= i < s.len() && i % 4 == 3 ==> s[i - 3] == quarter_turn(cx, cy, s[i])
}

/// The walk is empty for a non-positive radius; otherwise it starts on the
/// positive x axis and its first quarter ends one column right of the centre.
#[verifier::opaque]
pub open spec fn ring_ends(cx: int, cy: int, radius: int, s: Seq<(int, int)>) -> bool {
    &&& radius <= 0 ==> s.len() == 0
    &&& radius > 0 ==> s.len() >= 4 && s[0] == (cx + radius, cy) && s[s.len() - 4].0 == cx + 1
}

/// In its first quarter (every fourth point) the walk stays right of and
/// not below the centre, within `radius` columns, and moves by `arc_step`.
#[verifier::opaque]
pub open spec fn ring_arcs(cx: int, cy: int, radius: int, s: Seq<(int, int)>) -> bool {
    &&& forall|i: int|
        0 <= i < s.len() && i % 4 == 0 ==> 0 < (#[trigger] s[i]).0 - cx <= radius && s[i].1 - cy >= 0
    &&& forall|i: int|
        0 <= i && i + 4 < s.len() && i % 4 == 0 ==> arc_step(s[i], #[trigger] s[i + 4])
}

/// The shape of the ring of the integer circle walk.
pub open spec fn ring_shape(cx: int, cy: int, radius: int, s: Seq<(int, int)>) -> bool {
    ring_turns(cx, cy, s) && ring_ends(cx, cy, radius, s) && ring_arcs(cx, cy, radius, s)
}

/// One step of the walk in its first quadrant: the point moves one cell
/// towards the y axis, one cell up, or both.
pub open spec fn arc_step(a: (int, int), b: (int, int)) -> bool {
    let dx = b.0 - a.0;
    let dy = b.1 - a.1;
    (dx == -1 || dx == 0) && (dy == 0 || dy == 1) && !(dx == 0 && dy == 0)
}

pub open spec fn ipt(p: (i32, i32)) -> (int, int) {
    (p.0 as int, p.1 as int)
}

pub open spec fn ipts(s: Seq<(i32, i32)>) -> Seq<(int, int)> {
    s.map_values(|p: (i32, i32)| ipt(p))
}

/// Largest magnitude accepted for a circle's centre coordinates and radius.
pub const CIRCLE_LIMIT: i32 = 0x10_0000;

/// Relies on line_drawing::BresenhamCircle: its iterator yields, for each
/// step of the walk, the four points `(cx - x, cy + y)`, `(cx - y, cy - x)`,
/// `(cx + x, cy - y)`, `(cx + y, cy + x)` while `x < 0`, starting from
/// `x = -radius`, `y = 0`. Each step raises `y` by one, `x` by one, or both:
/// when `y` is not raised the error stays above `y`, which raises `x`.
#[verifier::external_body]
fn bresenham_circle(cx: i32, cy: i32, radius: i32) -> (r: Vec<(i32, i32)>)
    requires
        -CIRCLE_LIMIT <= cx <= CIRCLE_LIMIT,
        -CIRCLE_LIMIT <= cy <= CIRCLE_LIMIT,
        -CIRCLE_LIMIT <= radius <= CIRCLE_LIMIT,
    ensures
        ipts(r@) == circle_ring(cx as int, cy as int, radius as int),
        ring_shape(cx as int, cy as int, radius as int, ipts(r@)),
{
    line_drawing::BresenhamCircle::new(cx, cy, radius).collect()
}

/// Rasterises the circle of the given radius about `(cx, cy)` with the
/// integer midpoint walk.
pub fn rasterize_circle(cx: i32, cy: i32, radius: i32) -> (r: Vec<(i32, i32)>)
    requires
        -CIRCLE_LIMIT <= cx <= CIRCLE_LIMIT,
        -CIRCLE_LIMIT <= cy <= CIRCLE_LIMIT,
        -CIRCLE_LIMIT <= radius <= CIRCLE_LIMIT,
    ensures
        ipts(r@) == circle_ring(cx as int, cy as int, radius as int),
        ring_shape(cx as int, cy as int, radius as int, ipts(r@)),
        radius >= 1 ==> r@.len() > 0,
        forall|i: int|
            0 <= i && i + 4 < r@.len() ==> chebyshev(ipt(#[trigger] r@[i]), ipt(r@[i + 4])) == 1,
        forall|i: int|
            #![trigger turned_index(i)]
            0 <= i < r@.len() ==> 0 <= turned_index(i) < r@.len() && ipt(r@[turned_index(i)])
                == quarter_turn(cx as int, cy as int, ipt(r@[i])),
{
    let r = bresenham_circle(cx, cy, radius);
    proof {
        lemma_circle_arcs_connected(cx as int, cy as int, radius as int, ipts(r@));
        assert forall|i: int| 0 <= i && i + 4 < r@.len() implies chebyshev(
            ipt(#[trigger] r@[i]),
            ipt(r@[i + 4]),
        ) == 1 by {
            assert(ipts(r@)[i] == ipt(r@[i]));
            assert(ipts(r@)[i + 4] == ipt(r@[i + 4]));
        }
        let s = ipts(r@);
        lemma_circle_quarter_turn_symmetric(cx as int, cy as int, radius as int, s);
        assert forall|i: int|
            #![trigger turned_index(i)]
            0 <= i < r@.len() implies 0 <= turned_index(i) < r@.len() && ipt(
            r@[turned_index(i)],
        ) == quarter_turn(cx as int, cy as int, ipt(r@[i])) by {
            assert(s[i] == ipt(r@[i]));
            assert(s[turned_index(i)] == ipt(r@[turned_index(i)]));
        }
    }
    r
}

proof fn lemma_turn_keeps_distance(cx: int, cy: int, a: (int, int), b: (int, int))
    ensures
        chebyshev(quarter_turn(cx, cy, a), quarter_turn(cx, cy, b)) == chebyshev(a, b),
{
}

/// Along each quarter of a rasterised circle, the points of consecutive
/// steps are 8-neighbours: every arc is a connected path.
pub proof fn lemma_circle_arcs_connected(cx: int, cy: int, radius: int, s: Seq<(int, int)>)
    requires
        ring_shape(cx, cy, radius, s),
    ensures
        forall|i: int|
            0 <= i && i + 4 < s.len() ==> chebyshev(#[trigger] s[i], s[i + 4]) == 1,
{
    reveal(ring_turns);
    reveal(ring_arcs);
    assert forall|i: int| 0 <= i && i + 4 < s.len() implies chebyshev(#[trigger] s[i], s[i + 4]) == 1 by {
        let b = i - i % 4;
        assert(b % 4 == 0 && 0 <= b && b + 4 < s.len() && i - b < 4) by {
            vstd::arithmetic::div_mod::lemma_fundamental_div_mod(i, 4);
            vstd::arithmetic::div_mod::lemma_mod_bound(i, 4);
            vstd::arithmetic::div_mod::lemma_fundamental_div_mod_converse(b, 4, i / 4, 0);
        }
        assert(s.len() % 4 == 0);
        assert(b + 8 <= s.len()) by {
            vstd::arithmetic::div_mod::lemma_fundamental_div_mod(s.len() as int, 4);
        }
        assert(arc_step(s[b], s[b + 4]));
        assert((b + 1) % 4 == 1 && (b + 2) % 4 == 2 && (b + 5) % 4 == 1 && (b + 6) % 4 == 2) by {
            vstd::arithmetic::div_mod::lemma_fundamental_div_mod_converse(b + 1, 4, b / 4, 1);
            vstd::arithmetic::div_mod::lemma_fundamental_div_mod_converse(b + 2, 4, b / 4, 2);
            vstd::arithmetic::div_mod::lemma_fundamental_div_mod_converse(b + 5, 4, b / 4 + 1, 1);
            vstd::arithmetic::div_mod::lemma_fundamental_div_mod_converse(b + 6, 4, b / 4 + 1, 2);
            vstd::arithmetic::div_mod::lemma_fundamental_div_mod_converse(b, 4, b / 4, 0);
        }
        assert((b + 3) % 4 == 3 && (b + 4) % 4 == 0 && (b + 7) % 4 == 3) by {
            vstd::arithmetic::div_mod::lemma_fundamental_div_mod_converse(b + 3, 4, b / 4, 3);
            vstd::arithmetic::div_mod::lemma_fundamental_div_mod_converse(b + 4, 4, b / 4 + 1, 0);
            vstd::arithmetic::div_mod::lemma_fundamental_div_mod_converse(b + 7, 4, b / 4 + 1, 3);
        }
        let b0 = b;
        let b1 = b + 1;
        let b2 = b + 2;
        let b4 = b + 4;
        let b5 = b + 5;
        let b6 = b + 6;
        assert(s[b0 + 1] == quarter_turn(cx, cy, s[b0]));
        assert(s[b1 + 1] == quarter_turn(cx, cy, s[b1]));
        assert(s[b2 + 1] == quarter_turn(cx, cy, s[b2]));
        assert(s[b4 + 1] == quarter_turn(cx, cy, s[b4]));
        assert(s[b5 + 1] == quarter_turn(cx, cy, s[b5]));
        assert(s[b6 + 1] == quarter_turn(cx, cy, s[b6]));
        lemma_turn_keeps_distance(cx, cy, s[b], s[b + 4]);
        lemma_turn_keeps_distance(cx, cy, s[b + 1], s[b + 5]);
        lemma_turn_keeps_distance(cx, cy, s[b + 2], s[b + 6]);
        assert(i == b || i == b + 1 || i == b + 2 || i == b + 3);
    }
}

/// Where on the ring the quarter turn of the `i`-th point stands: the next
/// point of its group of four, or the first one for the last of a group.
pub open spec fn turned_index(i: int) -> int {
    if i % 4 != 3 { i + 1 } else { i - 3 }
}

proof fn lemma_turned_point(cx: int, cy: int, s: Seq<(int, int)>, i: int)
    requires
        ring_turns(cx, cy, s),
        0 <= i < s.len(),
    ensures
        0 <= turned_index(i) < s.len(),
        s[turned_index(i)] == quarter_turn(cx, cy, s[i]),
{
    reveal(ring_turns);
    let q = i / 4;
    let m = i % 4;
    vstd::arithmetic::div_mod::lemma_fundamental_div_mod(i, 4);
    vstd::arithmetic::div_mod::lemma_mod_bound(i, 4);
    let n = s.len() as int;
    vstd::arithmetic::div_mod::lemma_fundamental_div_mod(n, 4);
    if m != 3 {
        assert(i + 1 < n) by (nonlinear_arith)
            requires
                i == 4 * q + m,
                0 <= m < 3,
                n == 4 * (n / 4),
                i < n,
        ;
        assert(s[i + 1] == quarter_turn(cx, cy, s[i]));
    } else {
        assert(s[i - 3] == quarter_turn(cx, cy, s[i]));
    }
}

/// A rasterised circle is closed under a quarter turn about its centre:
/// the turned image of every point is also on the ring, at `turned_index`.
pub proof fn lemma_circle_quarter_turn_symmetric(cx: int, cy: int, radius: int, s: Seq<(int, int)>)
    requires
        ring_shape(cx, cy, radius, s),
    ensures
        radius >= 1 ==> s.len() > 0,
        forall|i: int|
            #![trigger turned_index(i)]
            0 <= i < s.len() ==> (0 <= turned_index(i) < s.len() && s[turned_index(i)]
                == quarter_turn(cx, cy, s[i])),
{
    lemma_ring_nonempty(cx, cy, radius, s);
    assert forall|i: int|
        #![trigger turned_index(i)]
        0 <= i < s.len() implies (0 <= turned_index(i) < s.len() && s[turned_index(i)]
            == quarter_turn(cx, cy, s[i])) by {
        lemma_turned_point(cx, cy, s, i);
    }
}

proof fn lemma_ring_nonempty(cx: int, cy: int, radius: int, s: Seq<(int, int)>)
    requires
        ring_ends(cx, cy, radius, s),
    ensures
        radius >= 1 ==> s.len() > 0,
{
    reveal(ring_ends);
}

} // verus!
