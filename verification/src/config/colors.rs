//! Colour values and their parsers.

use vstd::prelude::*;
use crate::text::{
    last_word_bounds, parse_decimal_capped, spec_decimal, spec_last_word, starts_with,
    starts_with_lit, str_chars,
};

verus! {

/// Parsed RGB color.
#[derive(Debug, Clone, Copy)]
pub struct Color {
    pub r: u8,
    pub g: u8,
    pub b: u8,
}

/// ASCII hexadecimal digit.
pub open spec fn is_hex_digit(c: char) -> bool {
    ('0' <= c <= '9') || ('a' <= c <= 'f') || ('A' <= c <= 'F')
}

/// Value of a hexadecimal digit.
pub open spec fn hex_value(c: char) -> int {
    if '0' <= c <= '9' {
        c as int - '0' as int
    } else if 'a' <= c <= 'f' {
        c as int - 'a' as int + 10
    } else {
        c as int - 'A' as int + 10
    }
}

/// Two characters read as a `u8` in base 16, as `u8::from_str_radix` does:
/// two hex digits, or `+` and one hex digit.
pub open spec fn spec_hex_pair(a: char, b: char) -> Option<u8> {
    if is_hex_digit(a) && is_hex_digit(b) {
        Some((16 * hex_value(a) + hex_value(b)) as u8)
    } else if a == '+' && is_hex_digit(b) {
        Some(hex_value(b) as u8)
    } else {
        None
    }
}

/// The colour `#RRGGBB` (or `RRGGBB`) that `s` spells, as `(r, g, b)`.
pub open spec fn spec_parse_hex_color(s: Seq<char>) -> Option<(u8, u8, u8)> {
    let hex = if s.len() > 0 && s[0] == '#' { s.drop_first() } else { s };
    if hex.len() != 6 {
        None
    } else {
        match (spec_hex_pair(hex[0], hex[1]), spec_hex_pair(hex[2], hex[3]), spec_hex_pair(hex[4], hex[5])) {
            (Some(r), Some(g), Some(b)) => Some((r, g, b)),
            _ => None,
        }
    }
}

fn hex_digit_value(c: char) -> (r: Option<u8>)
    ensures
        r is Some <==> is_hex_digit(c),
        r matches Some(v) ==> v == hex_value(c) && v < 16,
{
    if '0' <= c && c <= '9' {
        Some(((c as u32) - ('0' as u32)) as u8)
    } else if 'a' <= c && c <= 'f' {
        Some(((c as u32) - ('a' as u32) + 10) as u8)
    } else if 'A' <= c && c <= 'F' {
        Some(((c as u32) - ('A' as u32) + 10) as u8)
    } else {
        None
    }
}

fn hex_pair(a: char, b: char) -> (r: Option<u8>)
    ensures
        r == spec_hex_pair(a, b),
{
    match (hex_digit_value(a), hex_digit_value(b)) {
        (Some(hi), Some(lo)) => Some(16 * hi + lo),
        (None, Some(lo)) => if a == '+' { Some(lo) } else { None },
        _ => None,
    }
}

/// Parse the colour spelled by `v[lo..hi]`.
fn parse_hex_chars(v: &[char], lo: usize, hi: usize) -> (r: Option<Color>)
    requires
        lo <= hi <= v@.len(),
    ensures
        r is Some <==> spec_parse_hex_color(v@.subrange(lo as int, hi as int)) is Some,
        r matches Some(c) ==> spec_parse_hex_color(v@.subrange(lo as int, hi as int)) == Some(
            (c.r, c.g, c.b),
        ),
{
    let ghost s = v@.subrange(lo as int, hi as int);
    let start = if lo < hi && v[lo] == '#' { lo + 1 } else { lo };
    let ghost hex = if s.len() > 0 && s[0] == '#' { s.drop_first() } else { s };
    assert(hex =~= v@.subrange(start as int, hi as int));
    if hi - start != 6 {
        return None;
    }
    let r = hex_pair(v[start], v[start + 1]);
    let g = hex_pair(v[start + 2], v[start + 3]);
    let b = hex_pair(v[start + 4], v[start + 5]);
    match (r, g, b) {
        (Some(r), Some(g), Some(b)) => Some(Color { r, g, b }),
        _ => None,
    }
}

/// Parse a hex color string (#RRGGBB or RRGGBB).
pub fn parse_hex_color(s: &str) -> (r: Option<Color>)
    ensures
        r is Some <==> spec_parse_hex_color(s@) is Some,
        r matches Some(c) ==> spec_parse_hex_color(s@) == Some((c.r, c.g, c.b)),
{
    let v = str_chars(s);
    assert(v@.subrange(0, v@.len() as int) =~= s@);
    parse_hex_chars(v.as_slice(), 0, v.len())
}

/// Palette index named by `key`: `colorN` (0-15), `regularN` (0-7),
/// `brightN` (8-15 for N in 0-7), or a bare index below 16.
pub open spec fn spec_parse_palette_key(key: Seq<char>) -> Option<usize> {
    if starts_with(key, "color"@) {
        match spec_decimal(key.skip(5)) {
            Some(i) => if i < 16 { Some(i as usize) } else { None },
            None => None,
        }
    } else if starts_with(key, "regular"@) {
        match spec_decimal(key.skip(7)) {
            Some(i) => if i < 8 { Some(i as usize) } else { None },
            None => None,
        }
    } else if starts_with(key, "bright"@) {
        match spec_decimal(key.skip(6)) {
            Some(i) => if i < 8 { Some((i + 8) as usize) } else { None },
            None => None,
        }
    } else {
        match spec_decimal(key) {
            Some(i) => if i < 16 { Some(i as usize) } else { None },
            None => None,
        }
    }
}

/// The number spelled by `v[from..]` if it is below `limit`.
fn small_index(v: &[char], from: usize, limit: u64) -> (r: Option<usize>)
    requires
        from <= v@.len(),
        limit <= 16,
    ensures
        r == match spec_decimal(v@.skip(from as int)) {
            Some(i) => if i < limit { Some(i as usize) } else { None },
            None => None,
        },
{
    assert(v@.subrange(from as int, v@.len() as int) =~= v@.skip(from as int));
    match parse_decimal_capped(v, from, v.len(), 16) {
        Some(x) => if x < limit { Some(x as usize) } else { None },
        None => None,
    }
}

/// Parse a palette key name to a palette index (0..=15).
///
/// Accepts `colorN` (horseshoe), `regularN` (foot, 0-7), `brightN` (foot, 8-15),
/// and bare numeric indices `0`..`15`.
pub fn parse_palette_key(key: &str) -> (r: Option<usize>)
    ensures
        r == spec_parse_palette_key(key@),
{
    let v = str_chars(key);
    proof {
        reveal_strlit("color");
        reveal_strlit("regular");
        reveal_strlit("bright");
    }
    if let Some(k) = starts_with_lit(v.as_slice(), "color") {
        return small_index(v.as_slice(), k, 16);
    }
    if let Some(k) = starts_with_lit(v.as_slice(), "regular") {
        return small_index(v.as_slice(), k, 8);
    }
    if let Some(k) = starts_with_lit(v.as_slice(), "bright") {
        return match small_index(v.as_slice(), k, 8) {
            Some(i) => Some(i + 8),
            None => None,
        };
    }
    assert(v@.skip(0) =~= v@);
    small_index(v.as_slice(), 0, 16)
}

/// The colour of foot's `cursor= TEXT_COLOR CURSOR_COLOR`: the last word.
pub open spec fn spec_parse_foot_cursor_color(value: Seq<char>) -> Option<(u8, u8, u8)> {
    match spec_last_word(value) {
        Some(w) => spec_parse_hex_color(w),
        None => None,
    }
}

/// Parse foot's dual cursor color: `cursor= TEXT_COLOR CURSOR_COLOR`.
///
/// Takes the last hex color (the actual cursor color). Also handles
/// a single color value.
pub fn parse_foot_cursor_color(value: &str) -> (r: Option<Color>)
    ensures
        r is Some <==> spec_parse_foot_cursor_color(value@) is Some,
        r matches Some(c) ==> spec_parse_foot_cursor_color(value@) == Some((c.r, c.g, c.b)),
{
    let v = str_chars(value);
    match last_word_bounds(v.as_slice()) {
        Some((a, b)) => parse_hex_chars(v.as_slice(), a, b),
        None => None,
    }
}

} // verus!
