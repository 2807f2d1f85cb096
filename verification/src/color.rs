//! Hex color handling: parses `#RRGGBB` track colors, substitutes a fixed
//! neutral gray for anything malformed, and derives the lane background tint
//! by blending a color toward white by a fixed factor.
//!
//! Channels are carried as integers 0 ..= 255; a backend that wants the unit
//! interval divides by 255 on its side of the boundary.

use vstd::prelude::*;
use vstd::string::StrSliceExecFns;
use vstd::string::StringExecFns;

verus! {

/// The neutral gray (0.4 of full scale per channel) substituted for any
/// malformed color string.
pub const FALLBACK_GRAY: u8 = 102;

#[derive(Clone, Copy, PartialEq, Eq, Structural, Debug)]
pub struct Rgb {
    pub r: u8,
    pub g: u8,
    pub b: u8,
}

pub open spec fn is_hex_digit(c: char) -> bool {
    ('0' <= c && c <= '9') || ('a' <= c && c <= 'f') || ('A' <= c && c <= 'F')
}

pub open spec fn hex_val(c: char) -> int {
    if '0' <= c && c <= '9' {
        c as u32 - '0' as u32
    } else if 'a' <= c && c <= 'f' {
        c as u32 - 'a' as u32 + 10
    } else {
        c as u32 - 'A' as u32 + 10
    }
}

/// A well-formed color: `#` followed by exactly six hex digits.
pub open spec fn valid_hex_color(s: Seq<char>) -> bool {
    &&& s.len() == 7
    &&& s[0] == '#'
    &&& forall|i: int| 1 <= i < 7 ==> is_hex_digit(#[trigger] s[i])
}

/// The channel value written at positions `i`, `i + 1`.
pub open spec fn spec_channel(s: Seq<char>, i: int) -> int {
    16 * hex_val(s[i]) + hex_val(s[i + 1])
}

pub open spec fn spec_hex_to_rgb(s: Seq<char>) -> Rgb {
    if valid_hex_color(s) {
        Rgb {
            r: spec_channel(s, 1) as u8,
            g: spec_channel(s, 3) as u8,
            b: spec_channel(s, 5) as u8,
        }
    } else {
        Rgb { r: FALLBACK_GRAY, g: FALLBACK_GRAY, b: FALLBACK_GRAY }
    }
}

fn hex_digit_at(s: &str, i: usize) -> (r: Option<u8>)
    requires
        i < s@.len(),
    ensures
        match r {
            Some(v) => is_hex_digit(s@[i as int]) && v == hex_val(s@[i as int]) && v < 16,
            None => !is_hex_digit(s@[i as int]),
        },
{
    let u = s.get_char(i) as u32;
    if 48 <= u && u <= 57 {
        Some((u - 48) as u8)
    } else if 97 <= u && u <= 102 {
        Some((u - 87) as u8)
    } else if 65 <= u && u <= 70 {
        Some((u - 55) as u8)
    } else {
        None
    }
}

/// Parses a `#RRGGBB` color; any malformed input maps to the fixed fallback
/// gray, never to an error.
pub fn hex_to_rgb(hex: &str) -> (r: Rgb)
    ensures
        r == spec_hex_to_rgb(hex@),
{
    let n = hex.unicode_len();
    if n != 7 || !(hex.get_char(0) == '#') {
        return Rgb { r: FALLBACK_GRAY, g: FALLBACK_GRAY, b: FALLBACK_GRAY };
    }
    let d1 = hex_digit_at(hex, 1);
    let d2 = hex_digit_at(hex, 2);
    let d3 = hex_digit_at(hex, 3);
    let d4 = hex_digit_at(hex, 4);
    let d5 = hex_digit_at(hex, 5);
    let d6 = hex_digit_at(hex, 6);
    if let (Some(d1), Some(d2), Some(d3), Some(d4), Some(d5), Some(d6)) = (
        d1,
        d2,
        d3,
        d4,
        d5,
        d6,
    ) {
        Rgb { r: 16 * d1 + d2, g: 16 * d3 + d4, b: 16 * d5 + d6 }
    } else {
        Rgb { r: FALLBACK_GRAY, g: FALLBACK_GRAY, b: FALLBACK_GRAY }
    }
}

/// The lane background tint of one channel: the channel pulled 85% of the
/// way toward white, in integer arithmetic.
pub open spec fn spec_tint_channel(c: int) -> int {
    255 - ((255 - c) * 3) / 20
}

pub open spec fn spec_lane_tint(c: Rgb) -> Rgb {
    Rgb {
        r: spec_tint_channel(c.r as int) as u8,
        g: spec_tint_channel(c.g as int) as u8,
        b: spec_tint_channel(c.b as int) as u8,
    }
}

fn tint_channel(c: u8) -> (r: u8)
    ensures
        r == spec_tint_channel(c as int),
        r >= c,
{
    let c16: u16 = c as u16;
    let lifted: u16 = 255 - ((255 - c16) * 3) / 20;
    lifted as u8
}

/// Blends a color toward white by the fixed lane-background factor.
pub fn lane_tint(c: Rgb) -> (r: Rgb)
    ensures
        r == spec_lane_tint(c),
{
    Rgb { r: tint_channel(c.r), g: tint_channel(c.g), b: tint_channel(c.b) }
}

/// A color attribute safe to embed in markup: the string itself when it is a
/// well-formed color, the fallback gray otherwise.
pub open spec fn spec_color_attr(s: Seq<char>) -> Seq<char> {
    if valid_hex_color(s) {
        s
    } else {
        seq!['#', '6', '6', '6', '6', '6', '6']
    }
}

pub fn color_attr(hex: &str) -> (r: String)
    ensures
        r@ == spec_color_attr(hex@),
{
    if is_valid_hex_color(hex) {
        String::from_str(hex)
    } else {
        let out = String::from_str("#666666");
        proof {
            reveal_strlit("#666666");
            assert(out@ =~= seq!['#', '6', '6', '6', '6', '6', '6']);
        }
        out
    }
}

fn is_valid_hex_color(hex: &str) -> (r: bool)
    ensures
        r == valid_hex_color(hex@),
{
    let n = hex.unicode_len();
    if n != 7 || !(hex.get_char(0) == '#') {
        return false;
    }
    let mut i: usize = 1;
    while i < 7
        invariant
            hex@.len() == 7,
            1 <= i <= 7,
            forall|j: int| 1 <= j < i ==> is_hex_digit(#[trigger] hex@[j]),
        decreases 7 - i,
    {
        if hex_digit_at(hex, i).is_none() {
            return false;
        }
        i += 1;
    }
    true
}

} // verus!
