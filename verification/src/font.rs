//! Glyph images and the font-file naming rules used to pick font files:
//! style indices, normalized names, family matching and style suffixes.

use vstd::prelude::*;
use vstd::string::StringExecFns;
use crate::text::{chars_eq_str, str_chars, str_slice, str_to_lowercase, unicode_lowercase};

verus! {

broadcast use vstd::string::group_string_axioms;

/// Cached glyph image with alpha coverage data.
#[derive(Clone)]
pub struct GlyphImage {
    pub width: u32,
    pub height: u32,
    pub left: i32,
    pub top: i32,
    /// Alpha values, row-major, one byte per pixel.
    pub alpha: Vec<u8>,
}

/// Well-known system fonts that cover Unicode symbol blocks (Misc Symbols,
/// Geometric Shapes, Dingbats, etc.) not included in the emoji font.
pub const FALLBACK_FAMILIES: [&'static str; 6] = [
    "NotoSans",
    "NotoSansSymbols",
    "NotoSansSymbols2",
    "DejaVuSans",
    "Symbola",
    "FreeSans",
];

/// Style variant index: 0 regular, 1 bold, 2 italic, 3 bold italic.
pub open spec fn spec_style_index(bold: bool, italic: bool) -> usize {
    ((if bold { 1usize } else { 0usize }) + (if italic { 2usize } else { 0usize })) as usize
}

/// Style variant index: 0 regular, 1 bold, 2 italic, 3 bold italic.
pub fn style_index(bold: bool, italic: bool) -> (r: usize)
    ensures
        r == spec_style_index(bold, italic),
        r < 4,
{
    let b: usize = if bold { 1 } else { 0 };
    let i: usize = if italic { 2 } else { 0 };
    b + i
}

/// A font name for matching: lower-cased, with the spaces removed.
pub open spec fn spec_normalize_font_name(name: Seq<char>) -> Seq<char> {
    unicode_lowercase(name).filter(|c: char| c != ' ')
}

/// Normalize a font name for matching: lowercase, strip spaces.
pub fn normalize_font_name(name: &str) -> (r: String)
    ensures
        r@ == spec_normalize_font_name(name@),
{
    let lower = str_to_lowercase(name);
    let l = lower.as_str();
    let lc = str_chars(l);
    let mut out = String::new();
    let mut i: usize = 0;
    while i < lc.len()
        invariant
            i <= lc@.len(),
            lc@ == l@,
            l@ == unicode_lowercase(name@),
            out@ == lc@.take(i as int).filter(|c: char| c != ' '),
        decreases lc@.len() - i,
    {
        assert(lc@.take(i as int + 1).drop_last() =~= lc@.take(i as int));
        reveal(Seq::filter);
        if lc[i] != ' ' {
            let one = str_slice(l, i, i + 1);
            out.append(one);
            assert(one@ =~= seq![lc@[i as int]]);
        }
        i = i + 1;
    }
    assert(lc@.take(lc@.len() as int) =~= lc@);
    out
}

/// `s` starts with `p`; the rest is `s.skip(p.len())`.
pub open spec fn has_prefix(s: Seq<char>, p: Seq<char>) -> bool {
    s.len() >= p.len() && s.take(p.len() as int) == p
}

/// A normalized file name names the family when it is the family name
/// alone or the family name followed by `-` and a style.
pub open spec fn spec_matches_font_family(filename: Seq<char>, family: Seq<char>) -> bool {
    has_prefix(filename, family) && (filename.len() == family.len() || filename[family.len() as int] == '-')
}

fn prefix_len(s: &[char], p: &[char]) -> (r: bool)
    ensures
        r == has_prefix(s@, p@),
{
    if s.len() < p.len() {
        return false;
    }
    let mut i: usize = 0;
    while i < p.len()
        invariant
            i <= p@.len() <= s@.len(),
            forall|k: int| 0 <= k < i ==> s@[k] == p@[k],
        decreases p@.len() - i,
    {
        if s[i] != p[i] {
            assert(s@.take(p@.len() as int)[i as int] != p@[i as int]);
            return false;
        }
        i = i + 1;
    }
    assert(s@.take(p@.len() as int) =~= p@);
    true
}

/// Check if a normalized filename matches a font family: the filename
/// (without extension) starts with the family name, followed by `-` (a
/// style suffix) or nothing, so that "jetbrainsmono" does not match
/// "jetbrainsmononerdfont".
pub fn matches_font_family(filename_norm: &str, family_norm: &str) -> (r: bool)
    ensures
        r == spec_matches_font_family(filename_norm@, family_norm@),
{
    let f = str_chars(filename_norm);
    let p = str_chars(family_norm);
    if !prefix_len(f.as_slice(), p.as_slice()) {
        return false;
    }
    f.len() == p.len() || f[p.len()] == '-'
}

/// The style of a normalized font file name: the part after the family
/// name (or the whole name when it does not start with it), without one
/// leading `-`, must be one of the four standard weights.
pub open spec fn spec_classify_font_style(name: Seq<char>, family: Seq<char>) -> Option<usize> {
    let after = if has_prefix(name, family) { name.skip(family.len() as int) } else { name };
    let style = if after.len() > 0 && after[0] == '-' { after.drop_first() } else { after };
    if style.len() == 0 || style == "regular"@ {
        Some(0)
    } else if style == "bold"@ {
        Some(1)
    } else if style == "italic"@ || style == "oblique"@ {
        Some(2)
    } else if style == "bolditalic"@ || style == "boldoblique"@ || style == "italicbold"@ || style == "obliquebold"@ {
        Some(3)
    } else {
        None
    }
}

/// Classify a font filename into a style index based on the suffix after
/// the family name. Only Regular, Bold, Italic and Bold Italic (or the
/// Oblique variants) are accepted; other weights are skipped.
pub fn classify_font_style(name_norm: &str, family_norm: &str) -> (r: Option<usize>)
    ensures
        r == spec_classify_font_style(name_norm@, family_norm@),
{
    let n = str_chars(name_norm);
    let p = str_chars(family_norm);
    let start: usize = if prefix_len(n.as_slice(), p.as_slice()) { p.len() } else { 0 };
    let start2: usize = if start < n.len() && n[start] == '-' { start + 1 } else { start };
    let style = vstd::slice::slice_subrange(n.as_slice(), start2, n.len());
    proof {
        let after = if has_prefix(name_norm@, family_norm@) { name_norm@.skip(family_norm@.len() as int) } else { name_norm@ };
        assert(after =~= n@.subrange(start as int, n@.len() as int));
        if after.len() > 0 && after[0] == '-' {
            assert(after.drop_first() =~= style@);
        } else {
            assert(after =~= style@);
        }
    }
    if style.len() == 0 || chars_eq_str(style, "regular") {
        Some(0)
    } else if chars_eq_str(style, "bold") {
        Some(1)
    } else if chars_eq_str(style, "italic") || chars_eq_str(style, "oblique") {
        Some(2)
    } else if chars_eq_str(style, "bolditalic") || chars_eq_str(style, "boldoblique") || chars_eq_str(
        style,
        "italicbold",
    ) || chars_eq_str(style, "obliquebold") {
        Some(3)
    } else {
        None
    }
}

/// A font file extension that is loaded: `ttf`, `otf` or `ttc`.
pub open spec fn spec_is_font_extension(ext: Seq<char>) -> bool {
    ext == "ttf"@ || ext == "otf"@ || ext == "ttc"@
}

pub fn is_font_extension(ext: &str) -> (r: bool)
    ensures
        r == spec_is_font_extension(ext@),
{
    let e = str_chars(ext);
    chars_eq_str(e.as_slice(), "ttf") || chars_eq_str(e.as_slice(), "otf") || chars_eq_str(e.as_slice(), "ttc")
}

/// The style chain a file of the requested family goes to: `None` unless
/// the file names the family in one of the four standard weights.
pub open spec fn spec_font_file_style(name: Seq<char>, family: Seq<char>) -> Option<usize> {
    if spec_matches_font_family(name, family) { spec_classify_font_style(name, family) } else { None }
}

pub fn font_file_style(name_norm: &str, family_norm: &str) -> (r: Option<usize>)
    ensures
        r == spec_font_file_style(name_norm@, family_norm@),
{
    if matches_font_family(name_norm, family_norm) {
        classify_font_style(name_norm, family_norm)
    } else {
        None
    }
}

/// Index of the first family that the file name matches.
pub open spec fn first_matching_family(name: Seq<char>, families: Seq<Seq<char>>, i: int) -> Option<int>
    decreases families.len() - i,
{
    if i < 0 || i >= families.len() {
        None
    } else if spec_matches_font_family(name, families[i]) {
        Some(i)
    } else {
        first_matching_family(name, families, i + 1)
    }
}

/// A fallback font file is used when it matches one of the fallback
/// families and, for the first family it matches, is the regular style.
pub open spec fn spec_accepts_fallback_file(name: Seq<char>, families: Seq<Seq<char>>) -> bool {
    match first_matching_family(name, families, 0) {
        Some(i) => spec_classify_font_style(name, families[i]) == Some(0usize),
        None => false,
    }
}

pub fn accepts_fallback_file(name_norm: &str, families_norm: &[String]) -> (r: bool)
    ensures
        r == spec_accepts_fallback_file(name_norm@, families_norm@.map_values(|s: String| s@)),
{
    let ghost fams = families_norm@.map_values(|s: String| s@);
    let mut i: usize = 0;
    while i < families_norm.len()
        invariant
            i <= families_norm@.len(),
            fams == families_norm@.map_values(|s: String| s@),
            first_matching_family(name_norm@, fams, 0) == first_matching_family(name_norm@, fams, i as int),
        decreases families_norm@.len() - i,
    {
        if matches_font_family(name_norm, families_norm[i].as_str()) {
            return match classify_font_style(name_norm, families_norm[i].as_str()) {
                Some(s) => s == 0,
                None => false,
            };
        }
        i = i + 1;
    }
    false
}

} // verus!
