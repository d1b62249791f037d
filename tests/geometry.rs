use analog_clock::geometry::{rasterize_circle, rasterize_line};

fn chebyshev(a: (isize, isize), b: (isize, isize)) -> isize {
    (a.0 - b.0).abs().max((a.1 - b.1).abs())
}

#[test]
fn line_shallow_slope_includes_both_ends() {
    let r = rasterize_line((0, 1), (6, 4));
    assert_eq!(r, vec![(0, 1), (1, 1), (2, 2), (3, 2), (4, 3), (5, 3), (6, 4)]);
}

#[test]
fn line_reversed_direction() {
    let r = rasterize_line((6, 4), (0, 1));
    assert_eq!(r, vec![(6, 4), (5, 4), (4, 3), (3, 3), (2, 2), (1, 2), (0, 1)]);
}

#[test]
fn line_vertical_and_horizontal() {
    assert_eq!(rasterize_line((2, 3), (2, 6)), vec![(2, 3), (2, 4), (2, 5), (2, 6)]);
    assert_eq!(rasterize_line((2, 3), (5, 3)), vec![(2, 3), (3, 3), (4, 3), (5, 3)]);
}

#[test]
fn line_single_point() {
    assert_eq!(rasterize_line((-4, 7), (-4, 7)), vec![(-4, 7)]);
}

#[test]
fn line_steep_negative_slope() {
    let r = rasterize_line((0, 0), (-2, -5));
    assert_eq!(r, vec![(0, 0), (0, -1), (0, -2), (-1, -3), (-1, -4), (-2, -5)]);
}

#[test]
fn lines_are_connected_in_every_octant() {
    let ends = [
        (7, 2), (2, 7), (-2, 7), (-7, 2), (-7, -2), (-2, -7), (2, -7), (7, -2), (5, 5), (-5, 5),
        (0, -9), (-9, 0),
    ];
    for &(x, y) in ends.iter() {
        let p0 = (3, -1);
        let p1 = (3 + x, -1 + y);
        let r = rasterize_line(p0, p1);
        assert_eq!(r[0], p0);
        assert_eq!(*r.last().unwrap(), p1);
        for w in r.windows(2) {
            assert_eq!(chebyshev(w[0], w[1]), 1);
        }
    }
}

#[test]
fn circle_radius_one() {
    let r = rasterize_circle(0, 0, 1);
    assert_eq!(r, vec![(1, 0), (0, 1), (-1, 0), (0, -1)]);
}

#[test]
fn circle_empty_for_zero_radius() {
    assert!(rasterize_circle(4, 4, 0).is_empty());
}

#[test]
fn circle_is_closed_under_quarter_turn() {
    for radius in 1..12 {
        let (cx, cy) = (20, 11);
        let r = rasterize_circle(cx, cy, radius);
        assert!(!r.is_empty());
        assert_eq!(r[0], (cx + radius, cy));
        for &(x, y) in r.iter() {
            let turned = (cx - (y - cy), cy + (x - cx));
            assert!(r.contains(&turned));
            assert!((x - cx).abs() <= radius && (y - cy).abs() <= radius);
        }
    }
}

fn floor_share(i: isize, minor: isize, major: isize) -> isize {
    i * minor / major
}

fn expected_line(p0: (isize, isize), p1: (isize, isize)) -> Vec<(isize, isize)> {
    let (dx, dy) = (p1.0 - p0.0, p1.1 - p0.1);
    let (ax, ay) = (dx.abs(), dy.abs());
    let n = ax.max(ay);
    let mut r = Vec::new();
    for i in 0..n {
        if ax >= ay {
            r.push((p0.0 + dx.signum() * i, p0.1 + dy.signum() * floor_share(i, ay, ax)));
        } else {
            r.push((p0.0 + dx.signum() * floor_share(i, ax, ay), p0.1 + dy.signum() * i));
        }
    }
    r.push(p1);
    r
}

#[test]
fn line_matches_the_stepping_formula() {
    for x in -9..=9 {
        for y in -9..=9 {
            let p0 = (2, -3);
            let p1 = (2 + x, -3 + y);
            assert_eq!(rasterize_line(p0, p1), expected_line(p0, p1), "to {:?}", p1);
        }
    }
}

#[test]
fn circle_arcs_are_connected() {
    for radius in 1..15 {
        let r = rasterize_circle(0, 0, radius);
        assert_eq!(r.len() % 4, 0);
        for i in 0..r.len().saturating_sub(4) {
            let a = (r[i].0 as isize, r[i].1 as isize);
            let b = (r[i + 4].0 as isize, r[i + 4].1 as isize);
            assert_eq!(chebyshev(a, b), 1);
        }
        assert_eq!(r[r.len() - 4].0, 1);
    }
}
