//! Composing a clock frame, and the decisions of the interactive loop.

use crate::angle::{hand_angles, hour_angle, minute_angle, second_angle, HandAngles, WallTime, FULL_TURN};
use crate::color::{minute_mark_color, minute_mark_rgb, palette_of, Palette, Theme};
use crate::frame::{
    blank, circle_grid, hand_grid, Grid, Hand, HandLineStart, HandThickness, Matrix, MAX_SIDE,
};
use crate::rescale::rescaled_grid;
use vstd::prelude::*;

verus! {

/// Angle between hour marks (30 degrees).
pub const HOUR_MARK_STEP: u32 = 300_000;

/// Angle between minute marks (6 degrees).
pub const MINUTE_MARK_STEP: u32 = 60_000;

/// Default aspect ratio, in tenths (2.0).
pub const DEFAULT_ASPECT_TENTHS: u32 = 20;

/// Smallest aspect ratio that a key press can reach, in tenths (1.0): the
/// drawn clock is never wider than the screen.
pub const MIN_ASPECT_TENTHS: u32 = 10;

/// Largest aspect ratio that a key press can reach, in tenths (4.0): the
/// drawn clock keeps at least a quarter of the screen width.
pub const MAX_ASPECT_TENTHS: u32 = 40;

/// What the clock shows and how often it is redrawn.
#[derive(Clone, Copy, Debug)]
pub struct RunClockOptions {
    pub theme: Theme,
    /// How often the clock is redrawn, in milliseconds.
    pub tick_interval_ms: u64,
    pub show_second_hand: bool,
    pub show_hour_labels: bool,
    pub show_minute_labels: bool,
}

/// The state the interactive loop keeps between ticks.
#[derive(Clone, Copy, Debug, PartialEq, Eq, Structural)]
pub struct UiState {
    /// Character height over character width, in tenths. The face is drawn
    /// this many tenths narrower and stretched back, so that it looks round.
    pub aspect_ratio_tenths: u32,
}

/// An input event, as the loop sees it.
#[derive(Clone, Copy, Debug, PartialEq, Eq, Structural)]
pub enum InputEvent {
    /// A key press with its character.
    Key(char),
    /// Control-C.
    Interrupt,
    /// The terminal now has this size.
    Resize(u16, u16),
    /// Anything else.
    Other,
}

/// What the loop does after an event.
#[derive(Clone, Copy, Debug, PartialEq, Eq, Structural)]
pub enum UiAction {
    /// Draw the next frame.
    Continue,
    /// Restore the terminal and stop.
    Quit,
    /// Clear the screen and diff the next frame against an empty one of
    /// this size.
    Reset(usize, usize),
}

/// The aspect ratio after an event. `+` or `=` widens the drawn clock by
/// lowering the ratio a tenth, down to `MIN_ASPECT_TENTHS`; `-` narrows it by
/// raising the ratio a tenth, up to `MAX_ASPECT_TENTHS`; `0` resets it.
pub open spec fn next_aspect(ratio: u32, e: InputEvent) -> u32 {
    match e {
        InputEvent::Key(c) => if c == '+' || c == '=' {
            if ratio > MIN_ASPECT_TENTHS { (ratio - 1) as u32 } else { ratio }
        } else if c == '-' {
            if ratio < MAX_ASPECT_TENTHS { (ratio + 1) as u32 } else { ratio }
        } else if c == '0' {
            DEFAULT_ASPECT_TENTHS
        } else {
            ratio
        },
        _ => ratio,
    }
}

/// The action for an event: `q` and control-C quit, a resize resets.
pub open spec fn action_for(e: InputEvent) -> UiAction {
    match e {
        InputEvent::Key(c) => if c == 'q' { UiAction::Quit } else { UiAction::Continue },
        InputEvent::Interrupt => UiAction::Quit,
        InputEvent::Resize(w, h) => UiAction::Reset(w as usize, h as usize),
        InputEvent::Other => UiAction::Continue,
    }
}

impl UiState {
    pub open spec fn wf(&self) -> bool {
        MIN_ASPECT_TENTHS <= self.aspect_ratio_tenths <= MAX_ASPECT_TENTHS
    }

    pub fn new() -> (r: UiState)
        ensures
            r.wf(),
            r.aspect_ratio_tenths == DEFAULT_ASPECT_TENTHS,
    {
        UiState { aspect_ratio_tenths: DEFAULT_ASPECT_TENTHS }
    }

    /// The width the face is drawn at for a screen `screen_width` wide.
    pub fn clock_width(&self, screen_width: usize) -> (r: usize)
        requires
            self.wf(),
            screen_width <= MAX_SIDE,
        ensures
            r == clock_width(screen_width as int, self.aspect_ratio_tenths as int),
            r <= screen_width,
            screen_width >= 4 ==> r > 0,
    {
        let r = screen_width * 10 / (self.aspect_ratio_tenths as usize);
        assert(r <= screen_width) by (nonlinear_arith)
            requires
                r == screen_width * 10 / (self.aspect_ratio_tenths as int),
                self.aspect_ratio_tenths >= 10,
        ;
        assert(screen_width >= 4 ==> r > 0) by (nonlinear_arith)
            requires
                r == screen_width * 10 / (self.aspect_ratio_tenths as int),
                self.aspect_ratio_tenths <= 40,
                self.aspect_ratio_tenths >= 10,
        ;
        r
    }

    /// Applies an event to the state and says what the loop does next.
    pub fn handle_event(&mut self, event: InputEvent) -> (r: UiAction)
        requires
            old(self).wf(),
        ensures
            final(self).wf(),
            final(self).aspect_ratio_tenths == next_aspect(old(self).aspect_ratio_tenths, event),
            r == action_for(event),
    {
        match event {
            InputEvent::Key(c) => {
                if c == '+' || c == '=' {
                    if self.aspect_ratio_tenths > MIN_ASPECT_TENTHS {
                        self.aspect_ratio_tenths = self.aspect_ratio_tenths - 1;
                    }
                } else if c == '-' {
                    if self.aspect_ratio_tenths < MAX_ASPECT_TENTHS {
                        self.aspect_ratio_tenths = self.aspect_ratio_tenths + 1;
                    }
                } else if c == '0' {
                    self.aspect_ratio_tenths = DEFAULT_ASPECT_TENTHS;
                }
                if c == 'q' {
                    UiAction::Quit
                } else {
                    UiAction::Continue
                }
            },
            InputEvent::Interrupt => UiAction::Quit,
            InputEvent::Resize(w, h) => UiAction::Reset(w as usize, h as usize),
            InputEvent::Other => UiAction::Continue,
        }
    }
}

/// The width the face is drawn at: the screen width over the aspect ratio,
/// rounded down.
pub open spec fn clock_width(screen_width: int, ratio_tenths: int) -> int {
    screen_width * 10 / ratio_tenths
}

/// A thin tick mark reaching `length` percent in from the rim.
pub open spec fn mark(degree: int, length: u32, color: crate::color::Rgb) -> Hand {
    Hand {
        degree: degree as u32,
        thickness: HandThickness::Thin,
        length,
        line_start: HandLineStart::FromCircumference,
        color,
    }
}

/// `g` with the first `k` marks, `step` apart from twelve o'clock.
pub open spec fn marks(g: Grid, w: int, h: int, step: int, length: u32, color: crate::color::Rgb, k: int) -> Grid
    decreases k,
{
    if k <= 0 {
        g
    } else {
        hand_grid(marks(g, w, h, step, length, color, k - 1), w, h, mark((k - 1) * step, length, color))
    }
}

pub open spec fn minute_hand(a: HandAngles, p: Palette) -> Hand {
    Hand {
        degree: a.minute,
        thickness: HandThickness::Bold,
        length: 90,
        line_start: HandLineStart::FromCenter,
        color: p.minute,
    }
}

pub open spec fn hour_hand(a: HandAngles, p: Palette) -> Hand {
    Hand {
        degree: a.hour,
        thickness: HandThickness::Bold,
        length: 50,
        line_start: HandLineStart::FromCenter,
        color: p.hour,
    }
}

pub open spec fn second_hand(a: HandAngles, p: Palette) -> Hand {
    Hand {
        degree: a.second,
        thickness: HandThickness::Thin,
        length: 90,
        line_start: HandLineStart::FromCenter,
        color: p.second,
    }
}

/// The face drawn back to front: circle, hour marks, minute marks, minute
/// hand, hour hand, second hand; each step paints over the ones before.
pub open spec fn face_grid(
    w: int,
    h: int,
    p: Palette,
    a: HandAngles,
    show_second_hand: bool,
    show_hour_labels: bool,
    show_minute_labels: bool,
) -> Grid {
    let g1 = circle_grid(blank(w, h), w, h, p.clock_face);
    let g2 = if show_hour_labels {
        marks(g1, w, h, HOUR_MARK_STEP as int, 15, p.clock_face, 12)
    } else {
        g1
    };
    let g3 = if show_minute_labels {
        marks(g2, w, h, MINUTE_MARK_STEP as int, 5, minute_mark_color(), 60)
    } else {
        g2
    };
    let g4 = hand_grid(g3, w, h, minute_hand(a, p));
    let g5 = hand_grid(g4, w, h, hour_hand(a, p));
    if show_second_hand {
        hand_grid(g5, w, h, second_hand(a, p))
    } else {
        g5
    }
}

pub open spec fn angles_wf(a: HandAngles) -> bool {
    a.hour < FULL_TURN && a.minute < FULL_TURN && a.second < FULL_TURN
}

fn draw_marks(m: &mut Matrix, count: u32, step: u32, length: u32, color: crate::color::Rgb)
    requires
        old(m).wf(),
        count * step <= FULL_TURN,
        step > 0,
        length <= 100,
    ensures
        final(m).wf(),
        final(m).width == old(m).width,
        final(m).height == old(m).height,
        final(m).grid() == marks(
            old(m).grid(),
            old(m).width as int,
            old(m).height as int,
            step as int,
            length,
            color,
            count as int,
        ),
{
    let ghost g0 = m.grid();
    let mut n: u32 = 0;
    while n < count
        invariant
            m.wf(),
            m.width == old(m).width,
            m.height == old(m).height,
            g0 == old(m).grid(),
            n <= count,
            count * step <= FULL_TURN,
            step > 0,
            length <= 100,
            m.grid() == marks(g0, m.width as int, m.height as int, step as int, length, color, n as int),
        decreases count - n,
    {
        assert(n * step < count * step) by (nonlinear_arith)
            requires
                n < count,
                step > 0,
        ;
        let hand = Hand {
            degree: n * step,
            thickness: HandThickness::Thin,
            length,
            line_start: HandLineStart::FromCircumference,
            color,
        };
        m.draw_hand(&hand);
        assert(hand == mark((n + 1 - 1) * step, length, color));
        n = n + 1;
    }
}

/// Composes one frame of the face at the given size.
pub fn draw_clock_face(
    width: usize,
    height: usize,
    palette: &Palette,
    angles: &HandAngles,
    show_second_hand: bool,
    show_hour_labels: bool,
    show_minute_labels: bool,
) -> (r: Matrix)
    requires
        width <= MAX_SIDE,
        height <= MAX_SIDE,
        angles_wf(*angles),
    ensures
        r.wf(),
        r.width == width,
        r.height == height,
        r.grid() == face_grid(
            width as int,
            height as int,
            *palette,
            *angles,
            show_second_hand,
            show_hour_labels,
            show_minute_labels,
        ),
{
    let mut m = Matrix::new(width, height);
    m.draw_circle(palette.clock_face);
    if show_hour_labels {
        draw_marks(&mut m, 12, HOUR_MARK_STEP, 15, palette.clock_face);
    }
    if show_minute_labels {
        let grey = minute_mark_rgb();
        draw_marks(&mut m, 60, MINUTE_MARK_STEP, 5, grey);
    }
    let minute = Hand {
        degree: angles.minute,
        thickness: HandThickness::Bold,
        length: 90,
        line_start: HandLineStart::FromCenter,
        color: palette.minute,
    };
    m.draw_hand(&minute);
    let hour = Hand {
        degree: angles.hour,
        thickness: HandThickness::Bold,
        length: 50,
        line_start: HandLineStart::FromCenter,
        color: palette.hour,
    };
    m.draw_hand(&hour);
    if show_second_hand {
        let second = Hand {
            degree: angles.second,
            thickness: HandThickness::Thin,
            length: 90,
            line_start: HandLineStart::FromCenter,
            color: palette.second,
        };
        m.draw_hand(&second);
    }
    m
}

/// The hand angles of a reading, as `hand_angles` computes them.
pub open spec fn angles_at(t: WallTime, tick_interval_ms: u64) -> HandAngles {
    HandAngles {
        hour: hour_angle(t) as u32,
        minute: minute_angle(t, tick_interval_ms) as u32,
        second: second_angle(t, tick_interval_ms) as u32,
    }
}

/// The frame shown for a screen `screen_width` by `height`: the face drawn at
/// the narrowed clock width, then stretched back to the screen width.
pub open spec fn clock_grid(
    ratio_tenths: int,
    o: RunClockOptions,
    p: Palette,
    screen_width: int,
    height: int,
    t: WallTime,
) -> Grid {
    let cw = clock_width(screen_width, ratio_tenths);
    rescaled_grid(
        face_grid(
            cw,
            height,
            p,
            angles_at(t, o.tick_interval_ms),
            o.show_second_hand,
            o.show_hour_labels,
            o.show_minute_labels,
        ),
        cw,
        height,
        screen_width,
    )
}

/// Draws the clock for one tick; `None` where a colour of the theme does not
/// parse.
pub fn draw_clock(
    state: &UiState,
    options: &RunClockOptions,
    screen_width: usize,
    height: usize,
    time: &WallTime,
) -> (r: Option<Matrix>)
    requires
        state.wf(),
        time.wf(),
        screen_width <= MAX_SIDE,
        height <= MAX_SIDE,
    ensures
        r is Some <==> palette_of(options.theme) is Some,
        r is Some ==> {
            let m = r.unwrap();
            &&& m.wf()
            &&& m.width == screen_width
            &&& m.height == height
            &&& m.grid() == clock_grid(
                state.aspect_ratio_tenths as int,
                *options,
                palette_of(options.theme).unwrap(),
                screen_width as int,
                height as int,
                *time,
            )
        },
{
    let palette = match Palette::from_theme(&options.theme) {
        Some(p) => p,
        None => {
            return None;
        },
    };
    let clock_width = state.clock_width(screen_width);
    let angles = hand_angles(time, options.tick_interval_ms);
    let face = draw_clock_face(
        clock_width,
        height,
        &palette,
        &angles,
        options.show_second_hand,
        options.show_hour_labels,
        options.show_minute_labels,
    );
    Some(face.rescale(screen_width))
}

/// Composing is idempotent: two corrected frames drawn for the same aspect
/// ratio, options, palette, screen size and time hold the same cells.
pub proof fn lemma_draw_clock_idempotent(
    state: UiState,
    options: RunClockOptions,
    screen_width: usize,
    height: usize,
    time: WallTime,
    first: Matrix,
    second: Matrix,
)
    requires
        palette_of(options.theme) is Some,
        first.grid() == clock_grid(
            state.aspect_ratio_tenths as int,
            options,
            palette_of(options.theme).unwrap(),
            screen_width as int,
            height as int,
            time,
        ),
        second.grid() == clock_grid(
            state.aspect_ratio_tenths as int,
            options,
            palette_of(options.theme).unwrap(),
            screen_width as int,
            height as int,
            time,
        ),
    ensures
        first.grid() == second.grid(),
{
}

/// The `std::io::Error` type, carried opaquely.
#[verifier::external_type_specification]
#[verifier::external_body]
pub struct ExIoError(std::io::Error);

/// Relies on `std::io::Error::new` with `ErrorKind::Other`, which keeps the
/// message as the error's description.
#[verifier::external_body]
fn io_error_other(message: &str) -> std::io::Error {
    std::io::Error::new(std::io::ErrorKind::Other, message)
}

/// An I/O error of kind `Other` carrying `message`.
pub fn new_error(message: String) -> std::io::Error {
    io_error_other(message.as_str())
}

} // verus!
