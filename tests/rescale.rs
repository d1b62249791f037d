use analog_clock::color::Rgb;
use analog_clock::frame::{Cell, Matrix, Point};
use analog_clock::rescale::{matrix_to_pixels, pixels_to_cells};

const RED: Rgb = Rgb { r: 200, g: 10, b: 10 };
const BLUE: Rgb = Rgb { r: 10, g: 10, b: 200 };

#[test]
fn stretching_doubles_each_column() {
    let mut m = Matrix::new(2, 1);
    m.draw_using_points(&vec![Point { x: 0, y: 0, color: RED }, Point { x: 1, y: 0, color: BLUE }]);
    let r = m.rescale(4);
    let red = Some(Cell { color: RED });
    let blue = Some(Cell { color: BLUE });
    assert_eq!(r.cells, vec![vec![red, red, blue, blue]]);
}

#[test]
fn stretching_keeps_the_height() {
    for &(w, h, sw) in [(40, 24, 80), (10, 7, 33), (5, 1, 5), (0, 6, 12), (9, 0, 18)].iter() {
        let mut m = Matrix::new(w, h);
        m.draw_circle(RED);
        let r = m.rescale(sw);
        assert_eq!(r.height, h);
        assert_eq!(r.cells.len(), h);
        assert_eq!(r.width, sw);
        assert!(r.cells.iter().all(|row| row.len() == sw));
    }
}

#[test]
fn stretching_to_the_same_width_keeps_the_frame() {
    let mut m = Matrix::new(12, 9);
    m.draw_circle(BLUE);
    let before = m.cells.clone();
    assert_eq!(m.rescale(12).cells, before);
}

#[test]
fn empty_frame_stretches_to_empty_frame() {
    let r = Matrix::new(3, 2).rescale(7);
    assert!(r.cells.iter().flatten().all(|c| c.is_none()));
}

#[test]
fn pixels_round_trip() {
    let mut m = Matrix::new(3, 2);
    m.draw_using_points(&vec![Point { x: 2, y: 1, color: RED }]);
    let px = matrix_to_pixels(&m);
    assert_eq!(px.len(), 24);
    assert_eq!(&px[0..4], &[0, 0, 0, 0]);
    assert_eq!(&px[20..24], &[200, 10, 10, 255]);
    assert_eq!(pixels_to_cells(&px, 3, 2), m.cells);
}

#[test]
fn white_cells_survive_rescaling() {
    let white = Rgb { r: 255, g: 255, b: 255 };
    let mut m = Matrix::new(2, 2);
    m.draw_using_points(&vec![Point { x: 1, y: 0, color: white }, Point { x: 0, y: 1, color: RED }]);
    let same = m.clone().rescale(2);
    assert_eq!(same.cells, m.cells);
    let stretched = m.rescale(4);
    let w = Some(Cell { color: white });
    let r = Some(Cell { color: RED });
    assert_eq!(stretched.cells, vec![vec![None, None, w, w], vec![r, r, None, None]]);
}
