//! Overlays that draw text: the search bar at the bottom of the window and
//! the input-method preedit at the cursor. The glyphs come rasterized, one
//! per character, in the order of the text.

use vstd::prelude::*;
use super::{Bgra, GridMetrics, Rect, Surface};
use super::cell_style::spec_fill;
use super::glyph::{draw_glyph, glyph_fits, spec_glyph};
use super::overlay::spec_blend_rect;
use super::primitives::{draw_rect, draw_rect_alpha, surface_wf};
use crate::font::GlyphImage;
use crate::num::decimal_digits;
use crate::terminal::render::RenderColors;
use crate::text::str_chars;

verus! {

pub const SEARCH_BAR_PADDING: u32 = 4;
pub const SEARCH_BAR_BG: Bgra = (40, 40, 40);
pub const SEARCH_BAR_BG_ALPHA: u8 = 230;
pub const SEARCH_CURSOR_WIDTH: u32 = 2;
pub const SEARCH_CURSOR_COLOR: Bgra = (220, 220, 220);
pub const SEARCH_TEXT_COLOR: Bgra = (255, 255, 255);
pub const PREEDIT_UNDERLINE_HEIGHT: u32 = 2;

/// The characters of the decimal digits of `n`.
pub open spec fn digit_chars(n: nat) -> Seq<char> {
    decimal_digits(n).map_values(|b: u8| b as char)
}

/// The text of the search bar: `Search: `, the query, and when the query
/// is not empty `  (N matches)`.
pub open spec fn spec_search_bar_text(q: Seq<char>, count: nat) -> Seq<char> {
    "Search: "@ + q + if q.len() > 0 {
        "  ("@ + digit_chars(count) + " matches)"@
    } else {
        Seq::empty()
    }
}

fn push_str(out: &mut Vec<char>, s: &str)
    ensures
        final(out)@ == old(out)@ + s@,
{
    let c = str_chars(s);
    let mut i: usize = 0;
    while i < c.len()
        invariant
            i <= c@.len(),
            c@ == s@,
            out@ == old(out)@ + c@.subrange(0, i as int),
        decreases c@.len() - i,
    {
        out.push(c[i]);
        assert(c@.subrange(0, i as int + 1) =~= c@.subrange(0, i as int).push(c@[i as int]));
        i = i + 1;
    }
    assert(c@.subrange(0, c@.len() as int) =~= c@);
}

/// The decimal digits of `n` as characters.
fn digit_chars_exec(n: usize) -> (v: Vec<char>)
    ensures
        v@ == digit_chars(n as nat),
    decreases n,
{
    if n < 10 {
        let mut v: Vec<char> = Vec::new();
        v.push(((48 + n) as u8) as char);
        assert(v@ =~= digit_chars(n as nat));
        v
    } else {
        let mut v = digit_chars_exec(n / 10);
        v.push(((48 + n % 10) as u8) as char);
        assert(v@ =~= digit_chars(n as nat));
        v
    }
}

/// The characters of the search bar.
pub fn search_bar_text(query: &str, match_count: usize) -> (t: Vec<char>)
    ensures
        t@ == spec_search_bar_text(query@, match_count as nat),
{
    let mut out: Vec<char> = Vec::new();
    push_str(&mut out, "Search: ");
    push_str(&mut out, query);
    if str_chars(query).len() > 0 {
        push_str(&mut out, "  (");
        let d = digit_chars_exec(match_count);
        let mut i: usize = 0;
        while i < d.len()
            invariant
                i <= d@.len(),
                out@ == "Search: "@ + query@ + "  ("@ + d@.subrange(0, i as int),
            decreases d@.len() - i,
        {
            out.push(d[i]);
            assert(d@.subrange(0, i as int + 1) =~= d@.subrange(0, i as int).push(d@[i as int]));
            i = i + 1;
        }
        push_str(&mut out, " matches)");
        assert(d@.subrange(0, d@.len() as int) =~= d@);
        assert(out@ =~= spec_search_bar_text(query@, match_count as nat));
    } else {
        assert(out@ =~= spec_search_bar_text(query@, match_count as nat));
    }
    out
}

/// Bytes of the UTF-8 encoding of `c`.
pub open spec fn utf8_len(c: char) -> nat {
    if (c as u32) < 0x80 {
        1
    } else if (c as u32) < 0x800 {
        2
    } else if (c as u32) < 0x10000 {
        3
    } else {
        4
    }
}

/// Byte offset of character `j` of `q` in its UTF-8 encoding.
pub open spec fn utf8_prefix_len(q: Seq<char>, j: int) -> nat
    decreases j,
{
    if j <= 0 {
        0
    } else {
        utf8_prefix_len(q, j - 1) + utf8_len(q[j - 1])
    }
}

/// The first character position at or after `j` (up to the end of `q`)
/// whose byte offset is `pos`, or 0 when there is none.
pub open spec fn cursor_from(q: Seq<char>, pos: nat, j: int) -> nat
    decreases q.len() + 1 - j,
{
    if j < 0 || j > q.len() {
        0
    } else if utf8_prefix_len(q, j) == pos {
        j as nat
    } else {
        cursor_from(q, pos, j + 1)
    }
}

/// The character position of the search cursor, given as a byte offset
/// into the query: the character starting there (or the end of the query),
/// else the start of the query.
pub open spec fn spec_search_cursor_index(q: Seq<char>, pos: nat) -> nat {
    cursor_from(q, pos, 0)
}

fn utf8_len_exec(c: char) -> (n: u128)
    ensures
        n == utf8_len(c),
{
    let u = c as u32;
    if u < 0x80 {
        1
    } else if u < 0x800 {
        2
    } else if u < 0x10000 {
        3
    } else {
        4
    }
}

/// The character position of the search cursor.
pub fn search_cursor_index(q: &[char], pos: usize) -> (k: usize)
    ensures
        k == spec_search_cursor_index(q@, pos as nat),
{
    let n = q.len();
    let mut off: u128 = 0;
    let mut j: usize = 0;
    loop
        invariant
            j <= n == q@.len(),
            off == utf8_prefix_len(q@, j as int),
            off <= 4 * j,
            spec_search_cursor_index(q@, pos as nat) == cursor_from(q@, pos as nat, j as int),
        decreases n - j,
    {
        if off == pos as u128 {
            return j;
        }
        if j == n {
            assert(cursor_from(q@, pos as nat, (n + 1) as int) == 0);
            return 0;
        }
        off = off + utf8_len_exec(q[j]);
        j = j + 1;
    }
}

proof fn lemma_prefix_len_increasing(q: Seq<char>, j: int, k: int)
    requires
        0 <= j < k <= q.len(),
    ensures
        utf8_prefix_len(q, j) < utf8_prefix_len(q, k),
    decreases k - j,
{
    if j + 1 < k {
        lemma_prefix_len_increasing(q, j, k - 1);
    }
}

proof fn lemma_cursor_from_finds(q: Seq<char>, k: int, j: int)
    requires
        0 <= j <= k <= q.len(),
    ensures
        cursor_from(q, utf8_prefix_len(q, k), j) == k,
    decreases k - j,
{
    if j < k {
        lemma_prefix_len_increasing(q, j, k);
        lemma_cursor_from_finds(q, k, j + 1);
    }
}

/// A cursor on a character boundary lands on that character: the byte
/// offset where character `k` starts gives position `k` (the end of the
/// query when `k` is its length).
pub proof fn law_cursor_index_of_boundary(q: Seq<char>, k: int)
    requires
        0 <= k <= q.len(),
    ensures
        spec_search_cursor_index(q, utf8_prefix_len(q, k)) == k,
{
    lemma_cursor_from_finds(q, k, 0);
}

/// The buffer after drawing the glyphs of characters `from .. to`, each in
/// its cell of width `cw` from `x0`.
pub open spec fn spec_glyph_run(
    buf: Seq<u8>,
    w: u32,
    h: u32,
    s: u32,
    x0: u32,
    y: u32,
    ch: u32,
    cw: u32,
    glyphs: Seq<Option<GlyphImage>>,
    from: int,
    to: int,
    fg: Bgra,
) -> Seq<u8>
    decreases to - from,
{
    if to <= from {
        buf
    } else {
        let prev = spec_glyph_run(buf, w, h, s, x0, y, ch, cw, glyphs, from, to - 1, fg);
        match glyphs[to - 1] {
            Some(g) => spec_glyph(prev, w, h, s, (x0 + (to - 1) * cw) as u32, y, ch, g, fg),
            None => prev,
        }
    }
}

/// Every glyph of the run can be placed in its cell.
pub open spec fn glyph_run_fits(
    w: u32,
    h: u32,
    x0: u32,
    y: u32,
    ch: u32,
    cw: u32,
    glyphs: Seq<Option<GlyphImage>>,
) -> bool {
    forall|i: int|
        0 <= i < glyphs.len() ==> match #[trigger] glyphs[i] {
            Some(g) => glyph_fits((x0 + i * cw) as u32, y, ch, g, w, h),
            None => true,
        }
}

fn draw_glyph_run(
    surface: &mut Surface<'_>,
    x0: u32,
    y: u32,
    ch: u32,
    cw: u32,
    glyphs: &[Option<GlyphImage>],
    from: usize,
    to: usize,
    fg: Bgra,
)
    requires
        surface_wf(old(surface).width, old(surface).height, old(surface).stride, old(surface).buf@.len() as int),
        from <= to <= glyphs@.len(),
        x0 + glyphs@.len() * cw <= u32::MAX,
        glyph_run_fits(old(surface).width, old(surface).height, x0, y, ch, cw, glyphs@),
    ensures
        final(final(surface).buf)@ == final(old(surface).buf)@,
        final(surface).width == old(surface).width,
        final(surface).height == old(surface).height,
        final(surface).stride == old(surface).stride,
        final(surface).buf@.len() == old(surface).buf@.len(),
        final(surface).buf@ == spec_glyph_run(
            old(surface).buf@,
            old(surface).width,
            old(surface).height,
            old(surface).stride,
            x0,
            y,
            ch,
            cw,
            glyphs@,
            from as int,
            to as int,
            fg,
        ),
{
    let ghost b0 = surface.buf@;
    let mut i: usize = from;
    while i < to
        invariant
            final(surface.buf)@ == final(old(surface).buf)@,
            from <= i <= to <= glyphs@.len(),
            x0 + glyphs@.len() * cw <= u32::MAX,
            surface.width == old(surface).width,
            surface.height == old(surface).height,
            surface.stride == old(surface).stride,
            surface.buf@.len() == b0.len(),
            b0 == old(surface).buf@,
            surface_wf(surface.width, surface.height, surface.stride, b0.len() as int),
            glyph_run_fits(surface.width, surface.height, x0, y, ch, cw, glyphs@),
            surface.buf@ == spec_glyph_run(
                b0,
                surface.width,
                surface.height,
                surface.stride,
                x0,
                y,
                ch,
                cw,
                glyphs@,
                from as int,
                i as int,
                fg,
            ),
        decreases to - i,
    {
        assert(i * cw <= glyphs@.len() * cw) by (nonlinear_arith)
            requires
                i <= glyphs@.len(),
        ;
        let x: u32 = (x0 as u64 + (i as u64) * (cw as u64)) as u32;
        match &glyphs[i] {
            Some(g) => {
                assert(glyph_fits(x, y, ch, *g, surface.width, surface.height)) by {
                    assert(match glyphs@[i as int] {
                        Some(g) => glyph_fits((x0 + i * cw) as u32, y, ch, g, surface.width, surface.height),
                        None => true,
                    });
                }
                draw_glyph(surface, x, y, ch, g, fg);
                assert(surface.buf@.len() == b0.len());
            },
            None => {},
        }
        i = i + 1;
    }
}

/// Row of the search bar and of its text.
pub open spec fn search_bar_y(h: u32, cell_h: u32) -> u32 {
    if h >= cell_h + SEARCH_BAR_PADDING { (h - (cell_h + SEARCH_BAR_PADDING)) as u32 } else { 0 }
}

/// Left edge of the search bar's text: the padding, at least 4 pixels.
pub open spec fn search_text_x(pad: u32) -> u32 {
    if pad >= SEARCH_BAR_PADDING { pad } else { SEARCH_BAR_PADDING }
}

/// The buffer after drawing the search bar: its background across the
/// bottom of the surface, the text up to the end of the query, the cursor
/// bar, then the match count.
pub open spec fn spec_search_bar(
    buf: Seq<u8>,
    w: u32,
    h: u32,
    s: u32,
    grid: GridMetrics,
    q: Seq<char>,
    count: nat,
    pos: nat,
    glyphs: Seq<Option<GlyphImage>>,
) -> Seq<u8> {
    let t = spec_search_bar_text(q, count);
    let k0 = 8 + q.len() as int;
    let bar_y = search_bar_y(h, grid.cell_h);
    let text_y = (bar_y + 2) as u32;
    let x0 = search_text_x(grid.pad);
    let b1 = spec_blend_rect(
        buf,
        w,
        h,
        s,
        0,
        bar_y,
        w,
        (grid.cell_h + SEARCH_BAR_PADDING) as u32,
        SEARCH_BAR_BG,
        SEARCH_BAR_BG_ALPHA,
    );
    let b2 = spec_glyph_run(b1, w, h, s, x0, text_y, grid.cell_h, grid.cell_w, glyphs, 0, k0, SEARCH_TEXT_COLOR);
    let cx = (x0 + (8 + spec_search_cursor_index(q, pos)) * grid.cell_w) as u32;
    let b3 = spec_blend_rect(b2, w, h, s, cx, text_y, SEARCH_CURSOR_WIDTH, grid.cell_h, SEARCH_CURSOR_COLOR, 255);
    spec_glyph_run(b3, w, h, s, x0, text_y, grid.cell_h, grid.cell_w, glyphs, k0, t.len() as int, SEARCH_TEXT_COLOR)
}

/// The search bar's geometry fits in `u32` and each glyph fits its cell.
pub open spec fn search_bar_fits(w: u32, h: u32, grid: GridMetrics, q: Seq<char>, count: nat, glyphs: Seq<Option<GlyphImage>>) -> bool {
    let t = spec_search_bar_text(q, count);
    let text_y = search_bar_y(h, grid.cell_h) + 2;
    let x0 = search_text_x(grid.pad);
    &&& glyphs.len() == t.len()
    &&& grid.cell_h + SEARCH_BAR_PADDING + 2 <= u32::MAX
    &&& text_y + grid.cell_h <= u32::MAX
    &&& x0 + (t.len() + 1) * grid.cell_w + SEARCH_CURSOR_WIDTH <= u32::MAX
    &&& glyph_run_fits(w, h, x0, text_y as u32, grid.cell_h, grid.cell_w, glyphs)
}

/// Draw the search bar at the bottom of the surface. `glyphs` holds the
/// rasterized glyph of each character of `search_bar_text(query,
/// match_count)`, in order; `cursor_byte_pos` is the cursor's byte offset
/// in the query.
pub fn draw_search_bar(
    surface: &mut Surface<'_>,
    grid: &GridMetrics,
    query: &str,
    match_count: usize,
    cursor_byte_pos: usize,
    glyphs: &[Option<GlyphImage>],
)
    requires
        surface_wf(old(surface).width, old(surface).height, old(surface).stride, old(surface).buf@.len() as int),
        search_bar_fits(old(surface).width, old(surface).height, *grid, query@, match_count as nat, glyphs@),
    ensures
        final(final(surface).buf)@ == final(old(surface).buf)@,
        final(surface).width == old(surface).width,
        final(surface).height == old(surface).height,
        final(surface).stride == old(surface).stride,
        final(surface).buf@ == spec_search_bar(
            old(surface).buf@,
            old(surface).width,
            old(surface).height,
            old(surface).stride,
            *grid,
            query@,
            match_count as nat,
            cursor_byte_pos as nat,
            glyphs@,
        ),
{
    let text = search_bar_text(query, match_count);
    let qc = str_chars(query);
    proof {
        reveal_strlit("Search: ");
    }
    let tl = text.len();
    assert(8 + qc@.len() <= tl);
    let k0 = 8 + qc.len();
    let bar_height = grid.cell_h + SEARCH_BAR_PADDING;
    let bar_y = surface.height.saturating_sub(bar_height);
    let bar = Rect { x: 0, y: bar_y, w: surface.width, h: bar_height };
    draw_rect_alpha(surface, &bar, SEARCH_BAR_BG, SEARCH_BAR_BG_ALPHA);
    let text_y = bar_y + 2;
    let x0 = if grid.pad >= SEARCH_BAR_PADDING { grid.pad } else { SEARCH_BAR_PADDING };
    assert(glyphs@.len() * grid.cell_w <= (glyphs@.len() + 1) * grid.cell_w) by (nonlinear_arith);
    draw_glyph_run(surface, x0, text_y, grid.cell_h, grid.cell_w, glyphs, 0, k0, SEARCH_TEXT_COLOR);
    let k = search_cursor_index(qc.as_slice(), cursor_byte_pos);
    proof {
        assert(k <= qc@.len()) by {
            lemma_cursor_from_bound(qc@, cursor_byte_pos as nat, 0);
        }
        assert((8 + k) * grid.cell_w <= (glyphs@.len() + 1) * grid.cell_w) by (nonlinear_arith)
            requires
                8 + k <= glyphs@.len() + 1,
        ;
    }
    let cx: u32 = (x0 as u64 + (8 + k as u64) * (grid.cell_w as u64)) as u32;
    let cursor = Rect { x: cx, y: text_y, w: SEARCH_CURSOR_WIDTH, h: grid.cell_h };
    draw_rect_alpha(surface, &cursor, SEARCH_CURSOR_COLOR, 255);
    draw_glyph_run(surface, x0, text_y, grid.cell_h, grid.cell_w, glyphs, k0, tl, SEARCH_TEXT_COLOR);
}

proof fn lemma_cursor_from_bound(q: Seq<char>, pos: nat, j: int)
    ensures
        cursor_from(q, pos, j) <= q.len(),
    decreases q.len() + 1 - j,
{
    if 0 <= j <= q.len() && utf8_prefix_len(q, j) != pos {
        lemma_cursor_from_bound(q, pos, j + 1);
    }
}

/// The cell of character `i` of the preedit text, which starts at the
/// cursor cell `(col0, row)`.
pub open spec fn preedit_cell(grid: GridMetrics, col0: u16, row: u16, i: int) -> (u32, u32) {
    ((grid.pad + (col0 + i) * grid.cell_w) as u32, (grid.pad + row * grid.cell_h) as u32)
}

/// The buffer after the first `n` characters of the preedit: each cell
/// filled with the foreground, its glyph in the background colour on top,
/// and an underline in the background colour along the cell's bottom.
pub open spec fn spec_preedit_run(
    buf: Seq<u8>,
    w: u32,
    h: u32,
    s: u32,
    grid: GridMetrics,
    col0: u16,
    row: u16,
    fg: Bgra,
    bg: Bgra,
    glyphs: Seq<Option<GlyphImage>>,
    n: nat,
) -> Seq<u8>
    decreases n,
{
    if n == 0 {
        buf
    } else {
        let prev = spec_preedit_run(buf, w, h, s, grid, col0, row, fg, bg, glyphs, (n - 1) as nat);
        let (x, y) = preedit_cell(grid, col0, row, n - 1);
        let b1 = spec_fill(prev, w, h, s, x, y, grid.cell_w, grid.cell_h, fg);
        let b2 = match glyphs[n - 1] {
            Some(g) => spec_glyph(b1, w, h, s, x, y, grid.cell_h, g, bg),
            None => b1,
        };
        spec_fill(b2, w, h, s, x, (y + grid.cell_h - PREEDIT_UNDERLINE_HEIGHT) as u32, grid.cell_w, PREEDIT_UNDERLINE_HEIGHT, bg)
    }
}

/// The preedit cells fit in `u32` and each glyph fits its cell.
pub open spec fn preedit_fits(w: u32, h: u32, grid: GridMetrics, col0: u16, row: u16, glyphs: Seq<Option<GlyphImage>>) -> bool {
    let y = grid.pad + row * grid.cell_h;
    &&& col0 + glyphs.len() <= u32::MAX
    &&& grid.pad + (col0 + glyphs.len()) * grid.cell_w + grid.cell_w <= u32::MAX
    &&& y + grid.cell_h <= u32::MAX
    &&& y + grid.cell_h >= PREEDIT_UNDERLINE_HEIGHT
    &&& forall|i: int|
        0 <= i < glyphs.len() ==> match #[trigger] glyphs[i] {
            Some(g) => glyph_fits(preedit_cell(grid, col0, row, i).0, preedit_cell(grid, col0, row, i).1, grid.cell_h, g, w, h),
            None => true,
        }
}

/// Draw the input method's preedit text at the cursor, inverted and
/// underlined; `glyphs` holds the rasterized glyph of each character.
pub fn draw_preedit(
    surface: &mut Surface<'_>,
    grid: &GridMetrics,
    cursor_pos: (u16, u16),
    preedit: &str,
    colors: &RenderColors,
    glyphs: &[Option<GlyphImage>],
)
    requires
        surface_wf(old(surface).width, old(surface).height, old(surface).stride, old(surface).buf@.len() as int),
        glyphs@.len() == preedit@.len(),
        preedit_fits(old(surface).width, old(surface).height, *grid, cursor_pos.0, cursor_pos.1, glyphs@),
    ensures
        final(final(surface).buf)@ == final(old(surface).buf)@,
        final(surface).width == old(surface).width,
        final(surface).height == old(surface).height,
        final(surface).stride == old(surface).stride,
        final(surface).buf@.len() == old(surface).buf@.len(),
        final(surface).buf@ == spec_preedit_run(
            old(surface).buf@,
            old(surface).width,
            old(surface).height,
            old(surface).stride,
            *grid,
            cursor_pos.0,
            cursor_pos.1,
            colors.foreground,
            colors.background,
            glyphs@,
            glyphs@.len(),
        ),
{
    let ghost b0 = surface.buf@;
    let n = glyphs.len();
    let col0 = cursor_pos.0 as u32;
    let row = cursor_pos.1 as u32;
    let fg = colors.foreground;
    let bg = colors.background;
    assert(row * grid.cell_h <= grid.pad + row * grid.cell_h);
    let y = grid.pad + row * grid.cell_h;
    let mut i: usize = 0;
    while i < n
        invariant
            final(surface.buf)@ == final(old(surface).buf)@,
            i <= n == glyphs@.len(),
            col0 == cursor_pos.0,
            y == grid.pad + cursor_pos.1 * grid.cell_h,
            surface.width == old(surface).width,
            surface.height == old(surface).height,
            surface.stride == old(surface).stride,
            surface.buf@.len() == b0.len(),
            b0 == old(surface).buf@,
            surface_wf(surface.width, surface.height, surface.stride, b0.len() as int),
            preedit_fits(surface.width, surface.height, *grid, cursor_pos.0, cursor_pos.1, glyphs@),
            surface.buf@ == spec_preedit_run(
                b0,
                surface.width,
                surface.height,
                surface.stride,
                *grid,
                cursor_pos.0,
                cursor_pos.1,
                fg,
                bg,
                glyphs@,
                i as nat,
            ),
        decreases n - i,
    {
        assert((col0 + i) * grid.cell_w <= (col0 + n) * grid.cell_w) by (nonlinear_arith)
            requires
                i <= n,
        ;
        let col = col0 + i as u32;
        let x = grid.pad + col * grid.cell_w;
        let cell = Rect { x, y, w: grid.cell_w, h: grid.cell_h };
        draw_rect(surface, &cell, fg);
        match &glyphs[i] {
            Some(g) => {
                assert(match glyphs@[i as int] {
                    Some(g) => glyph_fits(
                        preedit_cell(*grid, cursor_pos.0, cursor_pos.1, i as int).0,
                        preedit_cell(*grid, cursor_pos.0, cursor_pos.1, i as int).1,
                        grid.cell_h,
                        g,
                        surface.width,
                        surface.height,
                    ),
                    None => true,
                });
                draw_glyph(surface, x, y, grid.cell_h, g, bg);
            },
            None => {},
        }
        let underline = Rect { x, y: y + grid.cell_h - PREEDIT_UNDERLINE_HEIGHT, w: grid.cell_w, h: PREEDIT_UNDERLINE_HEIGHT };
        draw_rect(surface, &underline, bg);
        i = i + 1;
    }
}

} // verus!
