use analog_clock::color::Rgb;
use analog_clock::diff::generate_points;
use analog_clock::frame::{Cell, Hand, HandLineStart, HandThickness, Matrix, Point};

const RED: Rgb = Rgb { r: 200, g: 10, b: 10 };
const BLUE: Rgb = Rgb { r: 10, g: 10, b: 200 };

fn painted(m: &Matrix) -> usize {
    m.cells.iter().flatten().filter(|c| c.is_some()).count()
}

#[test]
fn new_frame_is_empty() {
    let m = Matrix::new(5, 3);
    assert_eq!(m.width, 5);
    assert_eq!(m.height, 3);
    assert_eq!(m.cells.len(), 3);
    assert!(m.cells.iter().all(|row| row.len() == 5 && row.iter().all(|c| c.is_none())));
}

#[test]
fn later_points_paint_over_earlier_and_outside_points_are_skipped() {
    let mut m = Matrix::new(4, 4);
    let points = vec![
        Point { x: 1, y: 2, color: RED },
        Point { x: 1, y: 2, color: BLUE },
        Point { x: -1, y: 0, color: RED },
        Point { x: 4, y: 0, color: RED },
        Point { x: 0, y: 4, color: RED },
    ];
    m.draw_using_points(&points);
    assert_eq!(m.cells[2][1], Some(Cell { color: BLUE }));
    assert_eq!(painted(&m), 1);
}

#[test]
fn circle_is_drawn_round_the_centre() {
    let mut m = Matrix::new(22, 22);
    m.draw_circle(RED);
    // radius 22 * 5 / 11 = 10 about (11, 11)
    assert_eq!(m.cells[11][21], Some(Cell { color: RED }));
    assert_eq!(m.cells[1][11], Some(Cell { color: RED }));
    assert_eq!(m.cells[11][1], Some(Cell { color: RED }));
    assert_eq!(m.cells[21][11], Some(Cell { color: RED }));
    assert_eq!(m.cells[11][11], None);
}

#[test]
fn thin_hand_at_twelve_points_up() {
    let mut m = Matrix::new(22, 22);
    m.draw_hand(&Hand {
        degree: 0,
        thickness: HandThickness::Thin,
        length: 50,
        line_start: HandLineStart::FromCenter,
        color: RED,
    });
    // from (11, 11) up to (11, 16) in Cartesian rows, i.e. grid rows 11 down to 6
    for y in 6..=11 {
        assert_eq!(m.cells[y][11], Some(Cell { color: RED }), "row {}", y);
    }
    assert_eq!(painted(&m), 6);
}

#[test]
fn bold_hand_at_three_points_right() {
    let mut m = Matrix::new(22, 22);
    m.draw_hand(&Hand {
        degree: 900_000,
        thickness: HandThickness::Bold,
        length: 50,
        line_start: HandLineStart::FromCenter,
        color: BLUE,
    });
    for y in 10..=12 {
        for x in 10..=17 {
            assert_eq!(m.cells[y][x], Some(Cell { color: BLUE }), "({}, {})", x, y);
        }
    }
    assert_eq!(painted(&m), 24);
}

#[test]
fn tick_mark_reaches_in_from_the_rim() {
    let mut m = Matrix::new(22, 22);
    m.draw_hand(&Hand {
        degree: 1_800_000,
        thickness: HandThickness::Thin,
        length: 20,
        line_start: HandLineStart::FromCircumference,
        color: RED,
    });
    // from 8 to 10 cells below the centre (Cartesian y 3 down to 1)
    for y in 19..=21 {
        assert_eq!(m.cells[y][11], Some(Cell { color: RED }), "row {}", y);
    }
    assert_eq!(painted(&m), 3);
}

#[test]
fn generate_points_is_row_major() {
    assert_eq!(generate_points(3, 2), vec![(0, 0), (1, 0), (2, 0), (0, 1), (1, 1), (2, 1)]);
    assert!(generate_points(0, 5).is_empty());
}

#[test]
fn drawn_circle_is_closed_under_quarter_turn() {
    for &(w, h) in [(22, 22), (40, 24), (31, 17), (80, 24)].iter() {
        let mut m = Matrix::new(w, h);
        m.draw_circle(RED);
        let (cx, cy) = ((w / 2) as isize, (h / 2) as isize);
        for y in 0..h {
            for x in 0..w {
                if m.cells[y][x].is_some() {
                    let tx = cx - (y as isize - cy);
                    let ty = cy + (x as isize - cx);
                    assert!(m.cells[ty as usize][tx as usize].is_some(), "({}, {}) in {}x{}", x, y, w, h);
                }
            }
        }
    }
}
