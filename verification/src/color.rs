//! Parsing of `#RRGGBB` color strings.

use vstd::prelude::*;
use crate::error::CanvasError;

verus! {

/// An RGB color; it rasterizes fully opaque.
#[derive(Debug, PartialEq, Eq, Structural, Clone, Copy)]
pub struct Color {
    pub r: u8,
    pub g: u8,
    pub b: u8,
}

/// The value of an ASCII hex digit, or -1 for any other byte.
pub open spec fn hex_val(b: u8) -> int {
    if 48 <= b <= 57 {  // '0' ..= '9'
        b - 48
    } else if 65 <= b <= 70 {  // 'A' ..= 'F'
        b - 55
    } else if 97 <= b <= 102 {  // 'a' ..= 'f'
        b - 87
    } else {
        -1
    }
}

/// Whether the byte is an ASCII hex digit.
pub open spec fn is_hex(b: u8) -> bool {
    hex_val(b) >= 0
}

/// Whether `s` is a well-formed `#RRGGBB` color string, as bytes.
pub open spec fn valid_color(s: Seq<u8>) -> bool {
    &&& s.len() == 7
    &&& s[0] == 35  // '#'
    &&& is_hex(s[1])
    &&& is_hex(s[2])
    &&& is_hex(s[3])
    &&& is_hex(s[4])
    &&& is_hex(s[5])
    &&& is_hex(s[6])
}

/// The channel value spelled by the two hex digits at `i` and `i + 1`.
pub open spec fn channel_val(s: Seq<u8>, i: int) -> int {
    hex_val(s[i]) * 16 + hex_val(s[i + 1])
}

/// The color a valid `#RRGGBB` string denotes.
pub open spec fn color_of(s: Seq<u8>) -> Color {
    Color {
        r: channel_val(s, 1) as u8,
        g: channel_val(s, 3) as u8,
        b: channel_val(s, 5) as u8,
    }
}

/// Parses one ASCII hex digit.
fn hex_digit(b: u8) -> (r: Option<u8>)
    ensures
        match r {
            Some(v) => hex_val(b) == v as int,
            None => !is_hex(b),
        },
{
    if 48 <= b && b <= 57 {
        Some(b - 48)
    } else if 65 <= b && b <= 70 {
        Some(b - 55)
    } else if 97 <= b && b <= 102 {
        Some(b - 87)
    } else {
        None
    }
}

/// Parses a `#RRGGBB` color string, rejecting anything malformed.
pub fn parse_color(s: &[u8]) -> (r: Result<Color, CanvasError>)
    ensures
        r is Ok <==> valid_color(s@),
        r matches Ok(c) ==> c == color_of(s@),
        r matches Err(e) ==> e == CanvasError::InvalidColor,
{
    if s.len() != 7 {
        return Err(CanvasError::InvalidColor);
    }
    if s[0] != 35 {
        return Err(CanvasError::InvalidColor);
    }
    let (d1, d2) = (hex_digit(s[1]), hex_digit(s[2]));
    let (d3, d4) = (hex_digit(s[3]), hex_digit(s[4]));
    let (d5, d6) = (hex_digit(s[5]), hex_digit(s[6]));
    if d1.is_none() || d2.is_none() || d3.is_none() || d4.is_none() || d5.is_none()
        || d6.is_none() {
        return Err(CanvasError::InvalidColor);
    }
    Ok(
        Color {
            r: d1.unwrap() * 16 + d2.unwrap(),
            g: d3.unwrap() * 16 + d4.unwrap(),
            b: d5.unwrap() * 16 + d6.unwrap(),
        },
    )
}

} // verus!
