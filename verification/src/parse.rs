//! Parsing of `#RRGGBB`-style hexadecimal color strings.
//!
//! A color is six hexadecimal digits after a leading `#`; a lone fifth
//! digit serves as the whole blue component, and anything after the sixth
//! digit is ignored. Strings in any other shape are rejected.

use vstd::prelude::*;
use vstd::string::{StrSliceExecFns, StringSliceAdditionalSpecFns};

verus! {

/// Whether `b` is an ASCII hexadecimal digit.
pub open spec fn is_hex_digit(b: u8) -> bool {
    (48 <= b <= 57) || (97 <= b <= 102) || (65 <= b <= 70)
}

/// The value of an ASCII hexadecimal digit.
pub open spec fn hex_val(b: u8) -> u8 {
    if 48 <= b <= 57 {
        (b - 48) as u8
    } else if 97 <= b <= 102 {
        (b - 97 + 10) as u8
    } else if 65 <= b <= 70 {
        (b - 65 + 10) as u8
    } else {
        0
    }
}

/// The byte written as two hexadecimal digits.
pub open spec fn hex_pair(hi: u8, lo: u8) -> u8 {
    (hex_val(hi) * 16 + hex_val(lo)) as u8
}

/// What `parse_hex_color` returns, over the byte content of the string:
/// the three components read off the digits after the `#`, or nothing when
/// the shape is wrong.
pub open spec fn parse_hex_color_spec(bs: Seq<u8>) -> Option<(u8, u8, u8)> {
    if bs.len() < 6 || bs[0] != 35 {
        None
    } else if bs.len() == 6 {
        if is_hex_digit(bs[1]) && is_hex_digit(bs[2]) && is_hex_digit(bs[3]) && is_hex_digit(
            bs[4],
        ) && is_hex_digit(bs[5]) {
            Some((hex_pair(bs[1], bs[2]), hex_pair(bs[3], bs[4]), hex_val(bs[5])))
        } else {
            None
        }
    } else {
        if is_hex_digit(bs[1]) && is_hex_digit(bs[2]) && is_hex_digit(bs[3]) && is_hex_digit(
            bs[4],
        ) && is_hex_digit(bs[5]) && is_hex_digit(bs[6]) {
            Some((hex_pair(bs[1], bs[2]), hex_pair(bs[3], bs[4]), hex_pair(bs[5], bs[6])))
        } else {
            None
        }
    }
}

/// Reads one hexadecimal digit, rejecting every other byte.
fn hex_digit(b: u8) -> (r: Option<u8>)
    ensures
        r is Some <==> is_hex_digit(b),
        r is Some ==> r->0 == hex_val(b),
{
    if b >= 48 && b <= 57 {
        Some(b - 48)
    } else if b >= 97 && b <= 102 {
        Some(b - 97 + 10)
    } else if b >= 65 && b <= 70 {
        Some(b - 65 + 10)
    } else {
        None
    }
}

/// Reads a byte from two hexadecimal digits.
fn hex_byte(hi: u8, lo: u8) -> (r: Option<u8>)
    ensures
        r is Some <==> (is_hex_digit(hi) && is_hex_digit(lo)),
        r is Some ==> r->0 == hex_pair(hi, lo),
{
    match (hex_digit(hi), hex_digit(lo)) {
        (Some(h), Some(l)) => Some(h * 16 + l),
        _ => None,
    }
}

/// Parses a `#RRGGBB` color string into its three components. The result is
/// `Some` exactly when the string starts with `#` and carries at least five
/// hexadecimal digits: six or more give the three two-digit components
/// (further bytes are ignored), exactly five let the lone fifth digit stand
/// for the whole blue component.
pub fn parse_hex_color(s: &str) -> (r: Option<(u8, u8, u8)>)
    ensures
        r == parse_hex_color_spec(s.spec_bytes()),
{
    let bs = s.as_bytes_vec();
    if bs.len() < 6 {
        return None;
    }
    if bs[0] != 35 {
        return None;
    }
    let red = hex_byte(bs[1], bs[2]);
    let green = hex_byte(bs[3], bs[4]);
    let blue = if bs.len() == 6 {
        hex_digit(bs[5])
    } else {
        hex_byte(bs[5], bs[6])
    };
    match (red, green, blue) {
        (Some(r), Some(g), Some(b)) => Some((r, g, b)),
        _ => None,
    }
}

} // verus!
