use analog_clock::color::Rgb;
use analog_clock::diff::DiffUpdate;
use analog_clock::frame::{Cell, Matrix, Point};

const RED: Rgb = Rgb { r: 200, g: 10, b: 10 };

fn sample() -> Matrix {
    let mut m = Matrix::new(6, 4);
    m.draw_using_points(&vec![
        Point { x: 5, y: 0, color: RED },
        Point { x: 0, y: 1, color: RED },
        Point { x: 2, y: 3, color: RED },
    ]);
    m
}

#[test]
fn diff_of_identical_frames_is_empty() {
    let a = sample();
    let b = sample();
    assert!(a.diff(&b).is_empty());
    let mut c = Matrix::new(6, 4);
    c.draw_circle(RED);
    assert!(c.diff(&c.clone()).is_empty());
}

#[test]
fn diff_from_empty_lists_each_painted_cell_once() {
    let blank = Matrix::new(6, 4);
    let m = sample();
    let d = blank.diff(&m);
    let cell = Some(Cell { color: RED });
    assert_eq!(
        d,
        vec![
            DiffUpdate { x: 5, y: 0, cell },
            DiffUpdate { x: 0, y: 1, cell },
            DiffUpdate { x: 2, y: 3, cell },
        ]
    );
    let mut c = Matrix::new(30, 20);
    c.draw_circle(RED);
    let painted = c.cells.iter().flatten().filter(|x| x.is_some()).count();
    assert_eq!(Matrix::new(30, 20).diff(&c).len(), painted);
}

#[test]
fn diff_reports_erased_cells_as_empty() {
    let m = sample();
    let d = m.diff(&Matrix::new(6, 4));
    assert_eq!(d.len(), 3);
    assert!(d.iter().all(|u| u.cell.is_none()));
    assert_eq!((d[1].x, d[1].y), (0, 1));
}
