//! Parsing of `#rrggbb` hex colors out of the color names that maps and
//! sprites carry.  Named colors and the float color type belong to the
//! presentation layer; the parser here pins down the numeric part exactly.

use vstd::prelude::*;

verus! {

/// Whether `c` is a hexadecimal digit.
pub open spec fn is_hex_digit(c: char) -> bool {
    ('0' <= c && c <= '9') || ('a' <= c && c <= 'f') || ('A' <= c && c <= 'F')
}

/// The value of a hexadecimal digit.
pub open spec fn hex_val(c: char) -> int {
    if '0' <= c && c <= '9' {
        c as int - '0' as int
    } else if 'a' <= c && c <= 'f' {
        c as int - 'a' as int + 10
    } else {
        c as int - 'A' as int + 10
    }
}

/// The byte written as the two hexadecimal digits `hi` `lo`.
pub open spec fn hex_byte(hi: char, lo: char) -> int {
    16 * hex_val(hi) + hex_val(lo)
}

/// The color written `#rrggbb`: exactly seven characters, a leading hash,
/// six hexadecimal digits.  Anything else is not a hex color.
pub open spec fn hex_color_spec(s: Seq<char>) -> Option<(u8, u8, u8)> {
    if s.len() == 7 && s[0] == '#' && is_hex_digit(s[1]) && is_hex_digit(s[2]) && is_hex_digit(
        s[3],
    ) && is_hex_digit(s[4]) && is_hex_digit(s[5]) && is_hex_digit(s[6]) {
        Some(
            (
                hex_byte(s[1], s[2]) as u8,
                hex_byte(s[3], s[4]) as u8,
                hex_byte(s[5], s[6]) as u8,
            ),
        )
    } else {
        None
    }
}

/// Decides whether `c` is a hexadecimal digit.
fn hex_digit_value(c: char) -> (r: Option<u8>)
    ensures
        match r {
            Some(v) => is_hex_digit(c) && v == hex_val(c) && v < 16,
            None => !is_hex_digit(c),
        },
{
    if '0' <= c && c <= '9' {
        Some((c as u32 - '0' as u32) as u8)
    } else if 'a' <= c && c <= 'f' {
        Some((c as u32 - 'a' as u32 + 10) as u8)
    } else if 'A' <= c && c <= 'F' {
        Some((c as u32 - 'A' as u32 + 10) as u8)
    } else {
        None
    }
}

/// Parses a `#rrggbb` color string into its three byte components, exactly
/// as `hex_color_spec` describes; `None` for anything else, which the
/// presentation layer then resolves as a named color.
pub fn parse_hex_color(s: &str) -> (r: Option<(u8, u8, u8)>)
    ensures
        r == hex_color_spec(s@),
{
    if s.unicode_len() != 7 {
        return None;
    }
    if s.get_char(0) != '#' {
        return None;
    }
    let d1 = hex_digit_value(s.get_char(1));
    let d2 = hex_digit_value(s.get_char(2));
    let d3 = hex_digit_value(s.get_char(3));
    let d4 = hex_digit_value(s.get_char(4));
    let d5 = hex_digit_value(s.get_char(5));
    let d6 = hex_digit_value(s.get_char(6));
    match (d1, d2, d3, d4, d5, d6) {
        (Some(a), Some(b), Some(c), Some(d), Some(e), Some(f)) => Some(
            (16 * a + b, 16 * c + d, 16 * e + f),
        ),
        _ => None,
    }
}

} // verus!
