//! Configuration: key bindings, colours, window and terminal settings, and
//! the value parsers of foot.ini.

pub mod bindings;
pub mod colors;
pub mod keysym;
pub mod terminal_cfg;
pub mod types;
pub mod window;
pub mod settings;

use vstd::prelude::*;
use crate::text::{
    find_char, find_char_exec, parse_decimal_capped, spec_decimal, spec_trim, str_chars, str_slice,
    trim_bounds,
};

verus! {

/// The size `WIDTHxHEIGHT` that `value` spells: both parts trimmed and read
/// as `u32`, and both positive.
pub open spec fn spec_parse_size_u32(value: Seq<char>) -> Option<(u32, u32)> {
    match find_char(value, 'x', 0) {
        None => None,
        Some(k) => match (
            spec_decimal(spec_trim(value.take(k))),
            spec_decimal(spec_trim(value.skip(k + 1))),
        ) {
            (Some(w), Some(h)) => if 0 < w <= u32::MAX && 0 < h <= u32::MAX {
                Some((w as u32, h as u32))
            } else {
                None
            },
            _ => None,
        },
    }
}

/// The `u32` that the trimmed text `v[lo..hi]` spells.
fn parse_trimmed_u32(v: &[char], lo: usize, hi: usize) -> (r: Option<u32>)
    requires
        lo <= hi <= v@.len(),
    ensures
        r == match spec_decimal(spec_trim(v@.subrange(lo as int, hi as int))) {
            Some(x) => if x <= u32::MAX { Some(x as u32) } else { None },
            None => None,
        },
{
    let (a, b) = trim_bounds(v, lo, hi);
    assert(v@.subrange(lo as int, hi as int).subrange(a - lo, b - lo) =~= v@.subrange(a as int, b as int));
    match parse_decimal_capped(v, a, b, 0x1_0000_0000u64) {
        Some(x) => if x <= 0xffff_ffffu64 { Some(x as u32) } else { None },
        None => None,
    }
}

/// Parse a `WIDTHxHEIGHT` size string into `(u32, u32)`.
pub fn parse_size_u32(value: &str) -> (r: Option<(u32, u32)>)
    ensures
        r == spec_parse_size_u32(value@),
{
    let v = str_chars(value);
    let n = v.len();
    match find_char_exec(v.as_slice(), 'x', 0) {
        None => None,
        Some(k) => {
            proof {
                crate::text::lemma_find_char_range(v@, 'x', 0);
                assert(v@.subrange(0, k as int) =~= value@.take(k as int));
                assert(v@.subrange(k + 1, n as int) =~= value@.skip(k + 1));
            }
            let w = parse_trimmed_u32(v.as_slice(), 0, k);
            let h = parse_trimmed_u32(v.as_slice(), k + 1, n);
            match (w, h) {
                (Some(w), Some(h)) => if w > 0 && h > 0 { Some((w, h)) } else { None },
                _ => None,
            }
        },
    }
}

/// The font family of foot's `font=Family:size=N`: the text before the first
/// `:`, trimmed; `None` when empty.
pub open spec fn spec_parse_foot_font_family(value: Seq<char>) -> Option<Seq<char>> {
    let head = match find_char(value, ':', 0) {
        Some(k) => value.take(k),
        None => value,
    };
    if spec_trim(head).len() == 0 {
        None
    } else {
        Some(spec_trim(head))
    }
}

/// Parse foot's `font=Family:size=N` syntax, extracting the family name.
///
/// The family is everything before the first `:` modifier.
/// Returns `None` if the family is empty.
pub fn parse_foot_font_family(value: &str) -> (r: Option<String>)
    ensures
        r is Some <==> spec_parse_foot_font_family(value@) is Some,
        r matches Some(f) ==> spec_parse_foot_font_family(value@) == Some(f@),
{
    let v = str_chars(value);
    let n = v.len();
    let end = match find_char_exec(v.as_slice(), ':', 0) {
        Some(k) => k,
        None => n,
    };
    proof {
        crate::text::lemma_find_char_range(v@, ':', 0);
    }
    assert(v@.subrange(0, end as int) =~= match find_char(value@, ':', 0) {
        Some(k) => value@.take(k),
        None => value@,
    });
    let (a, b) = trim_bounds(v.as_slice(), 0, end);
    assert(v@.subrange(0, end as int).subrange(a as int, b as int) =~= value@.subrange(a as int, b as int));
    if a == b {
        return None;
    }
    let family = str_slice(value, a, b);
    Some(family.to_owned())
}

/// Parse a CLI `WIDTHxHEIGHT` size argument (same rules as the config value).
pub fn parse_cli_size(s: &str) -> (r: Option<(u32, u32)>)
    ensures
        r == spec_parse_size_u32(s@),
{
    parse_size_u32(s)
}

} // verus!
