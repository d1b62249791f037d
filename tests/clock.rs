use analog_clock::angle::{hand_angles, WallTime};
use analog_clock::clock::{
    draw_clock, draw_clock_face, new_error, InputEvent, RunClockOptions, UiAction, UiState,
};
use analog_clock::color::{Palette, Rgb, Theme};
use analog_clock::frame::{Cell, Matrix};
use analog_clock::theme::find_theme;

fn options(theme: &str, tick: u64) -> RunClockOptions {
    RunClockOptions {
        theme: find_theme(theme).unwrap(),
        tick_interval_ms: tick,
        show_second_hand: true,
        show_hour_labels: true,
        show_minute_labels: false,
    }
}

fn rows_with(m: &Matrix, color: Rgb) -> Vec<usize> {
    let mut rows = Vec::new();
    for (y, row) in m.cells.iter().enumerate() {
        if row.iter().any(|c| *c == Some(Cell { color })) {
            rows.push(y);
        }
    }
    rows
}

#[test]
fn six_oclock_hands_point_down_and_up() {
    let opts = options("nord-frost", 1000);
    let palette = Palette::from_theme(&opts.theme).unwrap();
    let time = WallTime::new(6, 0, 0, 0).unwrap();
    let angles = hand_angles(&time, 1000);
    assert_eq!(angles.minute, 0);
    assert_eq!(angles.hour, 1_800_000);
    let state = UiState::new();
    let frame = draw_clock(&state, &opts, 80, 24, &time).unwrap();
    assert_eq!((frame.width, frame.height), (80, 24));
    let hour_rows = rows_with(&frame, palette.hour);
    let minute_rows = rows_with(&frame, palette.minute);
    let centre = 24 / 2;
    assert!(*hour_rows.iter().max().unwrap() > centre);
    assert!(*minute_rows.iter().min().unwrap() <= 4);
    assert!(*minute_rows.iter().max().unwrap() <= centre + 1);
    // the face without the second hand, at the narrowed width
    let face = draw_clock_face(40, 24, &palette, &angles, false, false, false);
    let hour_rows = rows_with(&face, palette.hour);
    assert_eq!(*hour_rows.iter().min().unwrap(), centre - 1);
    assert_eq!(*hour_rows.iter().max().unwrap(), centre + 7);
}

#[test]
fn composing_twice_gives_identical_frames() {
    let opts = options("monokai", 250);
    let time = WallTime::new(10, 9, 31, 417).unwrap();
    let state = UiState::new();
    let a = draw_clock(&state, &opts, 97, 31, &time).unwrap();
    let b = draw_clock(&state, &opts, 97, 31, &time).unwrap();
    assert_eq!(a.cells, b.cells);
    assert!(a.diff(&b).is_empty());
}

#[test]
fn later_hands_paint_over_earlier_ones() {
    let palette = Palette::from_theme(&find_theme("nord-aurora").unwrap()).unwrap();
    let time = WallTime::new(0, 0, 0, 0).unwrap();
    let angles = hand_angles(&time, 1000);
    let with_second = draw_clock_face(40, 24, &palette, &angles, true, false, false);
    let without = draw_clock_face(40, 24, &palette, &angles, false, false, false);
    // all three hands point up; the thin second hand covers the centre column
    assert_eq!(with_second.cells[8][20], Some(Cell { color: palette.second }));
    assert_eq!(without.cells[8][20], Some(Cell { color: palette.hour }));
    assert_eq!(without.cells[4][20], Some(Cell { color: palette.minute }));
}

#[test]
fn hour_and_minute_marks_are_optional() {
    let palette = Palette::from_theme(&find_theme("gruvbox-dark").unwrap()).unwrap();
    let angles = hand_angles(&WallTime::new(0, 0, 0, 0).unwrap(), 1000);
    let plain = draw_clock_face(60, 40, &palette, &angles, false, false, false);
    let hours = draw_clock_face(60, 40, &palette, &angles, false, true, false);
    let marked = draw_clock_face(60, 40, &palette, &angles, false, true, true);
    let count = |m: &Matrix, c: Rgb| m.cells.iter().flatten().filter(|x| **x == Some(Cell { color: c })).count();
    let grey = Rgb { r: 0x4C, g: 0x56, b: 0x6A };
    assert_eq!(count(&plain, grey), 0);
    assert!(count(&marked, grey) > 0);
    assert_eq!(count(&hours, grey), 0);
    assert!(count(&hours, palette.clock_face) > count(&plain, palette.clock_face));
}

#[test]
fn unparsable_theme_colour_gives_no_frame() {
    let opts = RunClockOptions {
        theme: Theme { name: "odd", hour: "cyan", minute: "#000000", second: "#000000", clock_face: "#000000" },
        tick_interval_ms: 1000,
        show_second_hand: true,
        show_hour_labels: true,
        show_minute_labels: true,
    };
    let time = WallTime::new(1, 2, 3, 4).unwrap();
    assert!(draw_clock(&UiState::new(), &opts, 80, 24, &time).is_none());
}

#[test]
fn keys_adjust_the_aspect_ratio() {
    let mut s = UiState::new();
    assert_eq!(s.aspect_ratio_tenths, 20);
    assert_eq!(s.handle_event(InputEvent::Key('+')), UiAction::Continue);
    assert_eq!(s.aspect_ratio_tenths, 19);
    s.handle_event(InputEvent::Key('='));
    assert_eq!(s.aspect_ratio_tenths, 18);
    s.handle_event(InputEvent::Key('-'));
    assert_eq!(s.aspect_ratio_tenths, 19);
    s.handle_event(InputEvent::Key('0'));
    assert_eq!(s.aspect_ratio_tenths, 20);
    for _ in 0..30 {
        s.handle_event(InputEvent::Key('+'));
    }
    assert_eq!(s.aspect_ratio_tenths, 10);
    for _ in 0..50 {
        s.handle_event(InputEvent::Key('-'));
    }
    assert_eq!(s.aspect_ratio_tenths, 40);
    s.handle_event(InputEvent::Key('x'));
    assert_eq!(s.aspect_ratio_tenths, 40);
}

#[test]
fn quit_and_resize_actions() {
    let mut s = UiState::new();
    assert_eq!(s.handle_event(InputEvent::Key('q')), UiAction::Quit);
    assert_eq!(s.handle_event(InputEvent::Interrupt), UiAction::Quit);
    assert_eq!(s.handle_event(InputEvent::Resize(100, 30)), UiAction::Reset(100, 30));
    assert_eq!(s.handle_event(InputEvent::Other), UiAction::Continue);
    assert_eq!(s.aspect_ratio_tenths, 20);
}

#[test]
fn plus_widens_and_minus_narrows_the_drawn_clock() {
    let opts = options("lime-dark", 1000);
    let time = WallTime::new(9, 15, 0, 0).unwrap();
    let mut s = UiState::new();
    assert_eq!(s.clock_width(84), 42);
    s.handle_event(InputEvent::Key('+'));
    assert_eq!(s.clock_width(84), 44);
    let wide = draw_clock(&s, &opts, 84, 24, &time).unwrap();
    assert_eq!((wide.width, wide.height), (84, 24));
    s.handle_event(InputEvent::Key('-'));
    s.handle_event(InputEvent::Key('-'));
    assert_eq!(s.clock_width(84), 40);
    let narrow = draw_clock(&s, &opts, 84, 24, &time).unwrap();
    assert_eq!((narrow.width, narrow.height), (84, 24));
    for _ in 0..40 {
        s.handle_event(InputEvent::Key('-'));
    }
    assert_eq!(s.clock_width(84), 21);
    assert_eq!(s.clock_width(4), 1);
}

#[test]
fn new_error_keeps_the_message() {
    let e = new_error("Unable to get term size :(".to_string());
    assert_eq!(e.to_string(), "Unable to get term size :(");
    assert_eq!(e.kind(), std::io::ErrorKind::Other);
}
