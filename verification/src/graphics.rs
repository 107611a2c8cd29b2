//! Colours given in the configuration as hex text.

use vstd::prelude::*;

use crate::text::{str_chars, trim, trim_bounds, trim_end, trim_start};

verus! {

/// An opaque colour given by its 8-bit red, green and blue channels.
#[derive(Debug, Clone, Copy, PartialEq, Eq, Structural)]
pub struct Rgb8 {
    pub r: u8,
    pub g: u8,
    pub b: u8,
}

/// The colour that malformed colour text falls back to: the accent colour's default, `#ff007f`.
pub open spec fn fallback_color() -> Rgb8 {
    Rgb8 { r: 0xff, g: 0x00, b: 0x7f }
}

/// `s` without its leading `#` characters (`trim_start_matches('#')`).
pub open spec fn strip_hashes(s: Seq<char>) -> Seq<char>
    decreases s.len(),
{
    if s.len() > 0 && s[0] == '#' {
        strip_hashes(s.drop_first())
    } else {
        s
    }
}

/// The value of a hexadecimal digit, either case.
pub open spec fn hex_value(c: char) -> Option<nat> {
    let u = c as u32;
    if 0x30 <= u <= 0x39 {
        Some((u - 0x30) as nat)
    } else if 0x61 <= u <= 0x66 {
        Some((u - 0x61 + 10) as nat)
    } else if 0x41 <= u <= 0x46 {
        Some((u - 0x41 + 10) as nat)
    } else {
        None
    }
}

/// The byte that the two hexadecimal digits `a b` spell, `None` unless both
/// are hexadecimal digits.
pub open spec fn component(a: char, b: char) -> Option<u8> {
    match (hex_value(a), hex_value(b)) {
        (Some(x), Some(y)) => Some((16 * x + y) as u8),
        _ => None,
    }
}

/// The colour text with surrounding white space and leading `#`s removed.
pub open spec fn color_digits(hex: Seq<char>) -> Seq<char> {
    strip_hashes(trim(hex))
}

/// The colour that `#rrggbb` (or bare `rrggbb`) text denotes: six
/// hexadecimal digits, read in pairs as the red, green and blue bytes; any
/// other text denotes the fallback colour.
pub open spec fn hex_color(hex: Seq<char>) -> Rgb8 {
    let h = color_digits(hex);
    if h.len() == 6 && component(h[0], h[1]) is Some && component(h[2], h[3]) is Some && component(
        h[4],
        h[5],
    ) is Some {
        Rgb8 { r: component(h[0], h[1])->0, g: component(h[2], h[3])->0, b: component(h[4], h[5])->0 }
    } else {
        fallback_color()
    }
}

fn hex_digit(c: char) -> (d: Option<u8>)
    ensures
        match d {
            Some(x) => hex_value(c) == Some(x as nat),
            None => hex_value(c) is None,
        },
{
    let u: u32 = c as u32;
    if 0x30 <= u && u <= 0x39 {
        Some((u - 0x30) as u8)
    } else if 0x61 <= u && u <= 0x66 {
        Some((u - 0x61 + 10) as u8)
    } else if 0x41 <= u && u <= 0x46 {
        Some((u - 0x41 + 10) as u8)
    } else {
        None
    }
}

fn parse_component(a: char, b: char) -> (r: Option<u8>)
    ensures
        r == component(a, b),
{
    match (hex_digit(a), hex_digit(b)) {
        (Some(x), Some(y)) => Some(16 * x + y),
        _ => None,
    }
}

/// Parses `#rrggbb` (or bare `rrggbb`) colour text, as the accent colour is
/// given; any malformed text gives the fallback colour `#ff007f`.
pub fn parse_hex_color(hex: &str) -> (c: Rgb8)
    ensures
        c == hex_color(hex@),
{
    let v = str_chars(hex);
    let (a, e) = trim_bounds(&v, 0, v.len());
    assert(v@.subrange(0, v@.len() as int) =~= hex@);
    let mut s: usize = a;
    while s < e && v[s] == '#'
        invariant
            a <= s <= e <= v@.len(),
            color_digits(hex@) == strip_hashes(v@.subrange(s as int, e as int)),
        decreases e - s,
    {
        assert(v@.subrange(s as int, e as int).drop_first() =~= v@.subrange(s + 1, e as int));
        s += 1;
    }
    let ghost h = v@.subrange(s as int, e as int);
    assert(color_digits(hex@) == h);
    if e - s != 6 {
        return Rgb8 { r: 0xff, g: 0x00, b: 0x7f };
    }
    assert(h[0] == v@[s as int] && h[1] == v@[s + 1] && h[2] == v@[s + 2]);
    assert(h[3] == v@[s + 3] && h[4] == v@[s + 4] && h[5] == v@[s + 5]);
    match (
        parse_component(v[s], v[s + 1]),
        parse_component(v[s + 2], v[s + 3]),
        parse_component(v[s + 4], v[s + 5]),
    ) {
        (Some(r), Some(g), Some(b)) => Rgb8 { r, g, b },
        _ => Rgb8 { r: 0xff, g: 0x00, b: 0x7f },
    }
}


/// The lowercase hexadecimal digit for `d`.
pub open spec fn hex_digit_char(d: nat) -> char {
    if d == 0 {
        '0'
    } else if d == 1 {
        '1'
    } else if d == 2 {
        '2'
    } else if d == 3 {
        '3'
    } else if d == 4 {
        '4'
    } else if d == 5 {
        '5'
    } else if d == 6 {
        '6'
    } else if d == 7 {
        '7'
    } else if d == 8 {
        '8'
    } else if d == 9 {
        '9'
    } else if d == 10 {
        'a'
    } else if d == 11 {
        'b'
    } else if d == 12 {
        'c'
    } else if d == 13 {
        'd'
    } else if d == 14 {
        'e'
    } else {
        'f'
    }
}

/// The colour written as `#rrggbb`.
pub open spec fn hex_text(c: Rgb8) -> Seq<char> {
    seq![
        '#',
        hex_digit_char((c.r / 16) as nat),
        hex_digit_char((c.r % 16) as nat),
        hex_digit_char((c.g / 16) as nat),
        hex_digit_char((c.g % 16) as nat),
        hex_digit_char((c.b / 16) as nat),
        hex_digit_char((c.b % 16) as nat),
    ]
}

proof fn lemma_hex_digit(d: nat)
    requires
        d < 16,
    ensures
        hex_value(hex_digit_char(d)) == Some(d),
        hex_digit_char(d) != '#',
        !crate::text::is_ws(hex_digit_char(d)),
{
}

proof fn lemma_component(x: u8)
    ensures
        component(hex_digit_char((x / 16) as nat), hex_digit_char((x % 16) as nat)) == Some(x),
{
    lemma_hex_digit((x / 16) as nat);
    lemma_hex_digit((x % 16) as nat);
    assert(16 * (x / 16) + x % 16 == x);
}

/// Colour text written as `#rrggbb` reads back as the colour it was written from.
pub proof fn lemma_hex_color_roundtrip(c: Rgb8)
    ensures
        hex_color(hex_text(c)) == c,
{
    let t = hex_text(c);
    lemma_hex_digit((c.r / 16) as nat);
    lemma_hex_digit((c.b % 16) as nat);
    assert(trim_start(t) == t);
    assert(trim_end(t) == t);
    let h = t.drop_first();
    assert(strip_hashes(h) == h);
    assert(color_digits(t) == h);
    lemma_component(c.r);
    lemma_component(c.g);
    lemma_component(c.b);
}

/// What the window surface hands back when the next frame is asked for.
#[derive(Debug, Clone, Copy, PartialEq, Eq, Structural)]
pub enum SurfaceStatus {
    Success,
    Suboptimal,
    Outdated,
    Lost,
    Occluded,
    Timeout,
    Validation,
}

/// What a frame does about the surface's status.
#[derive(Debug, Clone, Copy, PartialEq, Eq, Structural)]
pub enum FrameAction {
    /// Draw into the texture that came with the status.
    Draw,
    /// Configure the surface again and draw nothing this time.
    Reconfigure,
    /// Draw nothing this time.
    Skip,
    /// Give up with the error "surface validation failed".
    Fail,
}

/// A texture that came (even a suboptimal one) is drawn into; an outdated
/// or lost surface is configured again; an occluded surface or a timeout
/// skips the frame; a validation error fails.
pub open spec fn frame_action_for(s: SurfaceStatus) -> FrameAction {
    match s {
        SurfaceStatus::Success | SurfaceStatus::Suboptimal => FrameAction::Draw,
        SurfaceStatus::Outdated | SurfaceStatus::Lost => FrameAction::Reconfigure,
        SurfaceStatus::Occluded | SurfaceStatus::Timeout => FrameAction::Skip,
        SurfaceStatus::Validation => FrameAction::Fail,
    }
}

/// What a frame does about the surface's status.
pub fn frame_action(s: SurfaceStatus) -> (a: FrameAction)
    ensures
        a == frame_action_for(s),
{
    match s {
        SurfaceStatus::Success | SurfaceStatus::Suboptimal => FrameAction::Draw,
        SurfaceStatus::Outdated | SurfaceStatus::Lost => FrameAction::Reconfigure,
        SurfaceStatus::Occluded | SurfaceStatus::Timeout => FrameAction::Skip,
        SurfaceStatus::Validation => FrameAction::Fail,
    }
}

} // verus!
