//! Colours, themes and the palette a frame is painted with.

use colors_transform::Color as _;
use vstd::prelude::*;

verus! {

/// A 24-bit colour.
#[derive(Clone, Copy, Debug, PartialEq, Eq, Structural)]
pub struct Rgb {
    pub r: u8,
    pub g: u8,
    pub b: u8,
}

pub open spec fn is_hex_digit(c: char) -> bool {
    ('0' <= c && c <= '9') || ('a' <= c && c <= 'f') || ('A' <= c && c <= 'F')
}

pub open spec fn hex_value(c: char) -> int {
    if '0' <= c && c <= '9' {
        c as int - '0' as int
    } else if 'a' <= c && c <= 'f' {
        c as int - 'a' as int + 10
    } else {
        c as int - 'A' as int + 10
    }
}

/// `s` is `#` followed by exactly six hexadecimal digits.
pub open spec fn is_hex6(s: Seq<char>) -> bool {
    &&& s.len() == 7
    &&& s[0] == '#'
    &&& forall|i: int| 1 <= i < 7 ==> is_hex_digit(#[trigger] s[i])
}

/// The colour written as `#rrggbb`.
pub open spec fn hex6_color(s: Seq<char>) -> Rgb {
    Rgb {
        r: (hex_value(s[1]) * 16 + hex_value(s[2])) as u8,
        g: (hex_value(s[3]) * 16 + hex_value(s[4])) as u8,
        b: (hex_value(s[5]) * 16 + hex_value(s[6])) as u8,
    }
}

/// What the hex colour parser makes of a string.
pub uninterp spec fn parsed_hex_color(s: Seq<char>) -> Option<Rgb>;

/// Relies on colors_transform's `Rgb::from_hex_str`: it drops the `#`,
/// lower-cases, reads six hex digits as one number and splits it into red,
/// green and blue bytes (stored as whole `f32` values, read back here).
#[verifier::external_body]
fn parse_hex_color(s: &str) -> (r: Option<Rgb>)
    ensures
        r == parsed_hex_color(s@),
        is_hex6(s@) ==> r == Some(hex6_color(s@)),
{
    match colors_transform::Rgb::from_hex_str(s) {
        Ok(c) => Some(Rgb { r: c.get_red() as u8, g: c.get_green() as u8, b: c.get_blue() as u8 }),
        Err(_) => None,
    }
}

/// A named set of four hex colours.
#[derive(Clone, Copy, Debug)]
pub struct Theme {
    pub name: &'static str,
    pub hour: &'static str,
    pub minute: &'static str,
    pub second: &'static str,
    pub clock_face: &'static str,
}

/// The four colours of a theme, parsed.
#[derive(Clone, Copy, Debug, PartialEq, Eq, Structural)]
pub struct Palette {
    pub hour: Rgb,
    pub minute: Rgb,
    pub second: Rgb,
    pub clock_face: Rgb,
}

/// The palette of a theme, if each of its colours parses.
pub open spec fn palette_of(t: Theme) -> Option<Palette> {
    match (
        parsed_hex_color(t.hour@),
        parsed_hex_color(t.minute@),
        parsed_hex_color(t.second@),
        parsed_hex_color(t.clock_face@),
    ) {
        (Some(hour), Some(minute), Some(second), Some(clock_face)) => Some(
            Palette { hour, minute, second, clock_face },
        ),
        _ => None,
    }
}

impl Palette {
    /// Parses the four colours of `theme`.
    pub fn from_theme(theme: &Theme) -> (r: Option<Palette>)
        ensures
            r == palette_of(*theme),
            is_hex6(theme.hour@) && is_hex6(theme.minute@) && is_hex6(theme.second@) && is_hex6(
                theme.clock_face@,
            ) ==> r == Some(
                Palette {
                    hour: hex6_color(theme.hour@),
                    minute: hex6_color(theme.minute@),
                    second: hex6_color(theme.second@),
                    clock_face: hex6_color(theme.clock_face@),
                },
            ),
    {
        let hour = parse_hex_color(theme.hour);
        let minute = parse_hex_color(theme.minute);
        let second = parse_hex_color(theme.second);
        let clock_face = parse_hex_color(theme.clock_face);
        match (hour, minute, second, clock_face) {
            (Some(hour), Some(minute), Some(second), Some(clock_face)) => Some(
                Palette { hour, minute, second, clock_face },
            ),
            _ => None,
        }
    }
}

/// The colour of the minute tick marks, the same in every theme.
pub open spec fn minute_mark_color() -> Rgb {
    Rgb { r: 0x4C, g: 0x56, b: 0x6A }
}

pub fn minute_mark_rgb() -> (r: Rgb)
    ensures
        r == minute_mark_color(),
{
    let s = "#4C566A";
    proof {
        reveal_strlit("#4C566A");
        assert(is_hex6(s@));
    }
    match parse_hex_color(s) {
        Some(c) => c,
        None => vstd::pervasive::unreached(),
    }
}

} // verus!
