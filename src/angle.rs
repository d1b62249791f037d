//! Clock hand angles and the integer sine used to place the hands.
//!
//! Angles are measured clockwise from twelve o'clock in ten-thousandths of a
//! degree, which makes every hand angle of a wall-clock reading exact. Hands
//! are placed with a sine taken from a table of whole degrees and
//! interpolated linearly, so that placement is plain integer arithmetic.

use chrono::Timelike;
use vstd::prelude::*;

verus! {

/// Angle units in one degree.
pub const UNITS_PER_DEGREE: u32 = 10_000;

/// Angle units in a quarter turn (90 degrees).
pub const QUARTER_TURN: u32 = 900_000;

/// Angle units in a full turn (360 degrees).
pub const FULL_TURN: u32 = 3_600_000;

/// The sine and cosine values are scaled by this factor.
pub const SINE_SCALE: i64 = 1_000_000;

/// `sin(d degrees)` scaled by `SINE_SCALE` and rounded, for whole degrees
/// `d` from 0 to 90.
pub open spec fn sine_of_degree(d: u32) -> int {
    match d {
        0 => 0,
        1 => 17452,
        2 => 34899,
        3 => 52336,
        4 => 69756,
        5 => 87156,
        6 => 104528,
        7 => 121869,
        8 => 139173,
        9 => 156434,
        10 => 173648,
        11 => 190809,
        12 => 207912,
        13 => 224951,
        14 => 241922,
        15 => 258819,
        16 => 275637,
        17 => 292372,
        18 => 309017,
        19 => 325568,
        20 => 342020,
        21 => 358368,
        22 => 374607,
        23 => 390731,
        24 => 406737,
        25 => 422618,
        26 => 438371,
        27 => 453990,
        28 => 469472,
        29 => 484810,
        30 => 500000,
        31 => 515038,
        32 => 529919,
        33 => 544639,
        34 => 559193,
        35 => 573576,
        36 => 587785,
        37 => 601815,
        38 => 615661,
        39 => 629320,
        40 => 642788,
        41 => 656059,
        42 => 669131,
        43 => 681998,
        44 => 694658,
        45 => 707107,
        46 => 719340,
        47 => 731354,
        48 => 743145,
        49 => 754710,
        50 => 766044,
        51 => 777146,
        52 => 788011,
        53 => 798636,
        54 => 809017,
        55 => 819152,
        56 => 829038,
        57 => 838671,
        58 => 848048,
        59 => 857167,
        60 => 866025,
        61 => 874620,
        62 => 882948,
        63 => 891007,
        64 => 898794,
        65 => 906308,
        66 => 913545,
        67 => 920505,
        68 => 927184,
        69 => 933580,
        70 => 939693,
        71 => 945519,
        72 => 951057,
        73 => 956305,
        74 => 961262,
        75 => 965926,
        76 => 970296,
        77 => 974370,
        78 => 978148,
        79 => 981627,
        80 => 984808,
        81 => 987688,
        82 => 990268,
        83 => 992546,
        84 => 994522,
        85 => 996195,
        86 => 997564,
        87 => 998630,
        88 => 999391,
        89 => 999848,
        _ => 1000000,
    }
}

fn sine_degree_entry(d: u32) -> (r: i64)
    requires
        d <= 90,
    ensures
        r == sine_of_degree(d),
{
    match d {
        0 => 0,
        1 => 17452,
        2 => 34899,
        3 => 52336,
        4 => 69756,
        5 => 87156,
        6 => 104528,
        7 => 121869,
        8 => 139173,
        9 => 156434,
        10 => 173648,
        11 => 190809,
        12 => 207912,
        13 => 224951,
        14 => 241922,
        15 => 258819,
        16 => 275637,
        17 => 292372,
        18 => 309017,
        19 => 325568,
        20 => 342020,
        21 => 358368,
        22 => 374607,
        23 => 390731,
        24 => 406737,
        25 => 422618,
        26 => 438371,
        27 => 453990,
        28 => 469472,
        29 => 484810,
        30 => 500000,
        31 => 515038,
        32 => 529919,
        33 => 544639,
        34 => 559193,
        35 => 573576,
        36 => 587785,
        37 => 601815,
        38 => 615661,
        39 => 629320,
        40 => 642788,
        41 => 656059,
        42 => 669131,
        43 => 681998,
        44 => 694658,
        45 => 707107,
        46 => 719340,
        47 => 731354,
        48 => 743145,
        49 => 754710,
        50 => 766044,
        51 => 777146,
        52 => 788011,
        53 => 798636,
        54 => 809017,
        55 => 819152,
        56 => 829038,
        57 => 838671,
        58 => 848048,
        59 => 857167,
        60 => 866025,
        61 => 874620,
        62 => 882948,
        63 => 891007,
        64 => 898794,
        65 => 906308,
        66 => 913545,
        67 => 920505,
        68 => 927184,
        69 => 933580,
        70 => 939693,
        71 => 945519,
        72 => 951057,
        73 => 956305,
        74 => 961262,
        75 => 965926,
        76 => 970296,
        77 => 974370,
        78 => 978148,
        79 => 981627,
        80 => 984808,
        81 => 987688,
        82 => 990268,
        83 => 992546,
        84 => 994522,
        85 => 996195,
        86 => 997564,
        87 => 998630,
        88 => 999391,
        89 => 999848,
        _ => 1000000,
    }
}

proof fn lemma_sine_table_monotone(d: u32)
    requires
        0 <= d < 90,
    ensures
        0 <= sine_of_degree(d) <= sine_of_degree((d + 1) as u32) <= SINE_SCALE,
{
}

/// Sine, scaled by `SINE_SCALE`, of an angle of `t` units in the first
/// quadrant: the table value of the whole degree below it, moved linearly
/// towards the next degree's value.
pub open spec fn quadrant_sine(t: int) -> int {
    let d = t / UNITS_PER_DEGREE as int;
    let f = t % UNITS_PER_DEGREE as int;
    if d >= 90 {
        SINE_SCALE as int
    } else {
        let lo = sine_of_degree(d as u32);
        let hi = sine_of_degree((d + 1) as u32);
        lo + (hi - lo) * f / UNITS_PER_DEGREE as int
    }
}

/// Scaled sine of an angle of `a` units, `0 <= a < FULL_TURN`.
pub open spec fn sine(a: int) -> int {
    let q = a / QUARTER_TURN as int;
    let r = a % QUARTER_TURN as int;
    if q == 0 {
        quadrant_sine(r)
    } else if q == 1 {
        quadrant_sine(QUARTER_TURN - r)
    } else if q == 2 {
        -quadrant_sine(r)
    } else {
        -quadrant_sine(QUARTER_TURN - r)
    }
}

/// Scaled cosine of an angle of `a` units, `0 <= a < FULL_TURN`.
pub open spec fn cosine(a: int) -> int {
    sine((a + QUARTER_TURN) % FULL_TURN as int)
}

fn quadrant_sine_exec(t: u32) -> (r: i64)
    requires
        t <= QUARTER_TURN,
    ensures
        r == quadrant_sine(t as int),
        0 <= r <= SINE_SCALE,
{
    let d = t / UNITS_PER_DEGREE;
    let f = t % UNITS_PER_DEGREE;
    if d >= 90 {
        SINE_SCALE
    } else {
        let lo = sine_degree_entry(d);
        let hi = sine_degree_entry(d + 1);
        proof {
            lemma_sine_table_monotone(d);
        }
        assert(0 <= (hi - lo) * (f as i64) <= SINE_SCALE * (UNITS_PER_DEGREE as i64)) by (nonlinear_arith)
            requires
                0 <= hi - lo <= SINE_SCALE,
                0 <= f < UNITS_PER_DEGREE,
        ;
        let step = (hi - lo) * (f as i64);
        assert(0 <= step <= (hi - lo) * (UNITS_PER_DEGREE as i64)) by (nonlinear_arith)
            requires
                step == (hi - lo) * (f as i64),
                0 <= hi - lo,
                0 <= f < UNITS_PER_DEGREE,
        ;
        assert(step / (UNITS_PER_DEGREE as i64) <= hi - lo) by (nonlinear_arith)
            requires
                0 <= step <= (hi - lo) * (UNITS_PER_DEGREE as i64),
        ;
        lo + step / (UNITS_PER_DEGREE as i64)
    }
}

/// Scaled sine of an angle of `a` units.
pub fn sine_exec(a: u32) -> (r: i64)
    requires
        a < FULL_TURN,
    ensures
        r == sine(a as int),
        -SINE_SCALE <= r <= SINE_SCALE,
{
    let q = a / QUARTER_TURN;
    let r = a % QUARTER_TURN;
    if q == 0 {
        quadrant_sine_exec(r)
    } else if q == 1 {
        quadrant_sine_exec(QUARTER_TURN - r)
    } else if q == 2 {
        -quadrant_sine_exec(r)
    } else {
        -quadrant_sine_exec(QUARTER_TURN - r)
    }
}

/// Scaled cosine of an angle of `a` units.
pub fn cosine_exec(a: u32) -> (r: i64)
    requires
        a < FULL_TURN,
    ensures
        r == cosine(a as int),
        -SINE_SCALE <= r <= SINE_SCALE,
{
    sine_exec((a + QUARTER_TURN) % FULL_TURN)
}

/// A wall-clock reading.
#[derive(Clone, Copy, Debug, PartialEq, Eq, Structural)]
pub struct WallTime {
    pub hour: u32,
    pub minute: u32,
    pub second: u32,
    pub millisecond: u32,
}

impl WallTime {
    pub open spec fn wf(&self) -> bool {
        &&& self.hour < 24
        &&& self.minute < 60
        &&& self.second < 60
        &&& self.millisecond < 1000
    }

    /// A reading from its parts, or `None` where one is out of range.
    pub fn new(hour: u32, minute: u32, second: u32, millisecond: u32) -> (r: Option<WallTime>)
        ensures
            r.is_some() <==> (hour < 24 && minute < 60 && second < 60 && millisecond < 1000),
            r.is_some() ==> r.unwrap() == (WallTime { hour, minute, second, millisecond }),
    {
        if hour < 24 && minute < 60 && second < 60 && millisecond < 1000 {
            Some(WallTime { hour, minute, second, millisecond })
        } else {
            None
        }
    }

    /// The reading for a local hour, minute and second and a Unix time in
    /// milliseconds, whose remainder by 1000 gives the millisecond.
    pub fn from_reading(hour: u32, minute: u32, second: u32, unix_millis: i64) -> (r: WallTime)
        requires
            hour < 24,
            minute < 60,
            second < 60,
        ensures
            r.wf(),
            r == (WallTime { hour, minute, second, millisecond: (unix_millis as int % 1000) as u32 }),
    {
        let millisecond = if unix_millis >= 0 {
            (unix_millis % 1000) as u32
        } else {
            let a = -(unix_millis + 1);
            proof {
                let q = a as int / 1000;
                let m = a as int % 1000;
                vstd::arithmetic::div_mod::lemma_fundamental_div_mod(a as int, 1000);
                vstd::arithmetic::div_mod::lemma_mod_bound(a as int, 1000);
                vstd::arithmetic::div_mod::lemma_fundamental_div_mod_converse(
                    unix_millis as int,
                    1000,
                    -q - 1,
                    999 - m,
                );
            }
            (999 - a % 1000) as u32
        };
        WallTime { hour, minute, second, millisecond }
    }

    /// The local time now.
    pub fn now() -> (r: WallTime)
        ensures
            r.wf(),
    {
        let (hour, minute, second, unix_millis) = local_clock_reading();
        WallTime::from_reading(hour, minute, second, unix_millis)
    }
}

/// Relies on chrono's conversion of `SystemTime::now()` into a
/// `DateTime<Local>`, with `Timelike::hour`, `minute`, `second` (documented
/// as 0 to 23, 0 to 59 and 0 to 59) and `DateTime::timestamp_millis`.
#[verifier::external_body]
fn local_clock_reading() -> (r: (u32, u32, u32, i64))
    ensures
        r.0 < 24,
        r.1 < 60,
        r.2 < 60,
{
    let now = chrono::DateTime::<chrono::Local>::from(std::time::SystemTime::now());
    (now.hour(), now.minute(), now.second(), now.timestamp_millis())
}

/// The angles of the three hands, in angle units.
#[derive(Clone, Copy, Debug, PartialEq, Eq, Structural)]
pub struct HandAngles {
    pub hour: u32,
    pub minute: u32,
    pub second: u32,
}

/// Milliseconds past the minute that the hands show: below a one-second tick
/// the milliseconds count, otherwise the seconds step whole.
pub open spec fn shown_millis(t: WallTime, tick_interval_ms: u64) -> int {
    if tick_interval_ms < 1000 {
        t.second * 1000 + t.millisecond
    } else {
        t.second * 1000
    }
}

/// `(second + ms / 1000) / 60 * 360` degrees.
pub open spec fn second_angle(t: WallTime, tick_interval_ms: u64) -> int {
    shown_millis(t, tick_interval_ms) * 60
}

/// `(minute + second / 60) / 60 * 360` degrees.
pub open spec fn minute_angle(t: WallTime, tick_interval_ms: u64) -> int {
    t.minute * 60_000 + shown_millis(t, tick_interval_ms)
}

/// `(hour % 12 + minute / 60) / 12 * 360` degrees.
pub open spec fn hour_angle(t: WallTime) -> int {
    ((t.hour % 12) * 60 + t.minute) * 5000
}

/// The hand angles for a reading.
pub fn hand_angles(time: &WallTime, tick_interval_ms: u64) -> (r: HandAngles)
    requires
        time.wf(),
    ensures
        r.hour == hour_angle(*time),
        r.minute == minute_angle(*time, tick_interval_ms),
        r.second == second_angle(*time, tick_interval_ms),
        r.hour < FULL_TURN,
        r.minute < FULL_TURN,
        r.second < FULL_TURN,
{
    let millis = if tick_interval_ms < 1000 {
        time.second * 1000 + time.millisecond
    } else {
        time.second * 1000
    };
    HandAngles {
        hour: ((time.hour % 12) * 60 + time.minute) * 5000,
        minute: time.minute * 60_000 + millis,
        second: millis * 60,
    }
}

} // verus!
