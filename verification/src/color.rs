//! Color strings and their parsed RGB form.
//!
//! A color is written as exactly six hexadecimal digits ("FFFFFF" is full
//! white).  Anything else fails to parse; callers leave the affected field
//! at its default instead of failing the whole element.

use vstd::prelude::*;
use vstd::string::StrSliceExecFns;

verus! {

/// An RGB color with 8-bit channels.
#[derive(Debug, Clone, Copy, PartialEq, Eq, Structural)]
pub struct Rgb {
    pub r: u8,
    pub g: u8,
    pub b: u8,
}

impl Rgb {
    pub fn new(r: u8, g: u8, b: u8) -> (c: Rgb)
        ensures
            c == (Rgb { r, g, b }),
    {
        Rgb { r, g, b }
    }
}

pub open spec fn is_hex_digit(c: char) -> bool {
    (48 <= c as u32 && c as u32 <= 57)  // '0' ..= '9'
    || (97 <= c as u32 && c as u32 <= 102)  // 'a' ..= 'f'
    || (65 <= c as u32 && c as u32 <= 70)  // 'A' ..= 'F'
}

pub open spec fn hex_digit_value(c: char) -> u8
    recommends
        is_hex_digit(c),
{
    if 48 <= c as u32 && c as u32 <= 57 {
        (c as u32 - 48) as u8
    } else if 97 <= c as u32 && c as u32 <= 102 {
        (c as u32 - 87) as u8
    } else {
        (c as u32 - 55) as u8
    }
}

/// The byte written by two hex digits, high digit first.
pub open spec fn hex_byte(hi: char, lo: char) -> u8
    recommends
        is_hex_digit(hi),
        is_hex_digit(lo),
{
    (hex_digit_value(hi) * 16 + hex_digit_value(lo)) as u8
}

/// What a color string denotes: six hex digits parse to the color they
/// spell, everything else parses to nothing.
pub open spec fn spec_color(s: Seq<char>) -> Option<Rgb> {
    if s.len() == 6 && (forall|i: int| 0 <= i < 6 ==> is_hex_digit(#[trigger] s[i])) {
        Some(
            Rgb {
                r: hex_byte(s[0], s[1]),
                g: hex_byte(s[2], s[3]),
                b: hex_byte(s[4], s[5]),
            },
        )
    } else {
        None
    }
}

fn hex_value(c: char) -> (r: Option<u8>)
    ensures
        r matches Some(v) ==> is_hex_digit(c) && v == hex_digit_value(c),
        r is None ==> !is_hex_digit(c),
{
    let u = c as u32;
    if 48 <= u && u <= 57 {
        Some((u - 48) as u8)
    } else if 97 <= u && u <= 102 {
        Some((u - 87) as u8)
    } else if 65 <= u && u <= 70 {
        Some((u - 55) as u8)
    } else {
        None
    }
}

/// Parses a color string: exactly six hexadecimal digits, or nothing.
pub fn string_to_color(color: &String) -> (r: Option<Rgb>)
    ensures
        r == spec_color(color@),
{
    let s = color.as_str();
    if s.unicode_len() != 6 {
        return None;
    }
    let c0 = s.get_char(0);
    let c1 = s.get_char(1);
    let c2 = s.get_char(2);
    let c3 = s.get_char(3);
    let c4 = s.get_char(4);
    let c5 = s.get_char(5);
    let v0 = hex_value(c0);
    let v1 = hex_value(c1);
    let v2 = hex_value(c2);
    let v3 = hex_value(c3);
    let v4 = hex_value(c4);
    let v5 = hex_value(c5);
    match (v0, v1, v2, v3, v4, v5) {
        (Some(h0), Some(l0), Some(h1), Some(l1), Some(h2), Some(l2)) => {
            proof {
                assert(forall|i: int| 0 <= i < 6 ==> is_hex_digit(#[trigger] color@[i])) by {
                    assert(color@[0] == c0);
                    assert(color@[1] == c1);
                    assert(color@[2] == c2);
                    assert(color@[3] == c3);
                    assert(color@[4] == c4);
                    assert(color@[5] == c5);
                };
            }
            Some(Rgb { r: h0 * 16 + l0, g: h1 * 16 + l1, b: h2 * 16 + l2 })
        },
        _ => None,
    }
}

} // verus!
