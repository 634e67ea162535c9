//! Blending glyph coverage masks onto the surface: procedural box-drawing
//! glyphs placed at the cell origin, and font glyphs placed on the baseline.

use vstd::prelude::*;
use super::{Bgra, Rect, Surface};
use super::primitives::{blend_byte, blend_channel, in_rect_bytes, lemma_byte_of, lemma_row_of, surface_wf};
use crate::font::GlyphImage;

verus! {

/// The mask value that covers byte `i`: the screen rectangle's top-left
/// pixel `(x0, y0)` shows mask pixel `(mc0, mr0)`.
pub open spec fn mask_alpha(mask: Seq<u8>, mask_w: int, mr0: int, mc0: int, x0: int, y0: int, s: int, i: int) -> u8 {
    mask[(i / s - y0 + mr0) * mask_w + ((i % s) / 4 - x0 + mc0)]
}

/// The buffer after blending `fg` through the mask over the screen pixels
/// of columns `x0 .. x1` and rows `y0 .. y1`; pixels whose mask value is 0
/// are left alone, the others become opaque.
pub open spec fn spec_mask_blit(
    buf: Seq<u8>,
    s: int,
    x0: int,
    x1: int,
    y0: int,
    y1: int,
    mask: Seq<u8>,
    mask_w: int,
    mr0: int,
    mc0: int,
    fg: Bgra,
) -> Seq<u8> {
    Seq::new(
        buf.len(),
        |i: int|
            if in_rect_bytes(s, x0, x1, y0, y1, i) && mask_alpha(mask, mask_w, mr0, mc0, x0, y0, s, i) != 0 {
                blend_byte(fg, buf[i], mask_alpha(mask, mask_w, mr0, mc0, x0, y0, s, i) as int, (i % s) % 4)
            } else {
                buf[i]
            },
    )
}

proof fn lemma_mask_index(r: int, c: int, mask_w: int, rows: int, len: int)
    requires
        0 <= r < rows,
        0 <= c < mask_w,
        rows * mask_w <= len,
    ensures
        0 <= r * mask_w + c < len,
        r * mask_w <= len,
{
    assert(0 <= r * mask_w + c < len && r * mask_w <= len) by (nonlinear_arith)
        requires
            0 <= r < rows,
            0 <= c < mask_w,
            rows * mask_w <= len,
    ;
}

/// Blend `fg` through the mask over columns `x0 .. x1` of rows `y0 .. y1`.
fn blit_mask(
    buf: &mut [u8],
    stride: u32,
    x0: u32,
    x1: u32,
    y0: u32,
    y1: u32,
    mask: &[u8],
    mask_w: usize,
    mr0: usize,
    mc0: usize,
    fg: Bgra,
)
    requires
        x0 < x1,
        y0 < y1,
        x1 * 4 <= stride,
        stride * y1 <= old(buf)@.len(),
        stride * y1 <= u32::MAX,
        mc0 + (x1 - x0) <= mask_w,
        (mr0 + (y1 - y0)) * mask_w <= mask@.len(),
    ensures
        final(buf)@ == spec_mask_blit(
            old(buf)@,
            stride as int,
            x0 as int,
            x1 as int,
            y0 as int,
            y1 as int,
            mask@,
            mask_w as int,
            mr0 as int,
            mc0 as int,
            fg,
        ),
{
    let ghost b0 = buf@;
    let ghost s = stride as int;
    let ghost target = spec_mask_blit(b0, s, x0 as int, x1 as int, y0 as int, y1 as int, mask@, mask_w as int, mr0 as int, mc0 as int, fg);
    let ghost rows = mr0 + (y1 - y0);
    let n = buf.len();
    let mlen = mask.len();
    assert(rows <= rows * mask_w) by (nonlinear_arith)
        requires
            mask_w >= 1,
            rows >= 0,
    ;
    let mut py: u32 = y0;
    while py < y1
        invariant
            buf@.len() == b0.len(),
            n == b0.len(),
            b0 == old(buf)@,
            s == stride,
            x0 < x1,
            y0 <= py <= y1,
            x1 * 4 <= stride,
            stride * y1 <= n,
            stride * y1 <= u32::MAX,
            mc0 + (x1 - x0) <= mask_w,
            rows == mr0 + (y1 - y0),
            rows * mask_w <= mask@.len(),
            rows <= rows * mask_w,
            mlen == mask@.len(),
            target == spec_mask_blit(b0, s, x0 as int, x1 as int, y0 as int, y1 as int, mask@, mask_w as int, mr0 as int, mc0 as int, fg),
            forall|i: int|
                0 <= i < n ==> #[trigger] buf@[i] == if in_rect_bytes(s, x0 as int, x1 as int, y0 as int, py as int, i) {
                    target[i]
                } else {
                    b0[i]
                },
        decreases y1 - py,
    {
        assert(py * stride + stride <= stride * y1 && py * stride >= 0) by (nonlinear_arith)
            requires
                py < y1,
        ;
        let row_base: u32 = py * stride;
        let mr: usize = (py - y0) as usize + mr0;
        proof {
            lemma_mask_index(mr as int, 0, mask_w as int, rows as int, mask@.len() as int);
        }
        let mask_base: usize = mr * mask_w;
        let mut px: u32 = x0;
        while px < x1
            invariant
                buf@.len() == b0.len(),
                n == b0.len(),
                s == stride,
                x0 <= px <= x1,
                y0 <= py < y1,
                x1 * 4 <= stride,
                row_base == py * stride,
                row_base + stride <= n,
                row_base + stride <= u32::MAX,
                mc0 + (x1 - x0) <= mask_w,
                rows == mr0 + (y1 - y0),
                rows * mask_w <= mask@.len(),
                mlen == mask@.len(),
                mr < rows,
                mr == py - y0 + mr0,
                mask_base == mr * mask_w,
                target == spec_mask_blit(b0, s, x0 as int, x1 as int, y0 as int, y1 as int, mask@, mask_w as int, mr0 as int, mc0 as int, fg),
                forall|i: int|
                    0 <= i < n ==> #[trigger] buf@[i] == if in_rect_bytes(s, x0 as int, x1 as int, y0 as int, py as int, i)
                        || (row_base <= i < row_base + px * 4 && x0 * 4 <= i - row_base) {
                        target[i]
                    } else {
                        b0[i]
                    },
            decreases x1 - px,
        {
            let off = (row_base + px * 4) as usize;
            let mc: usize = (px - x0) as usize + mc0;
            proof {
                lemma_mask_index(mr as int, mc as int, mask_w as int, rows as int, mask@.len() as int);
            }
            let a = mask[mask_base + mc];
            let ghost prev = buf@;
            if a != 0 {
                let a16 = a as u16;
                let vb = blend_channel(fg.2, buf[off], a16);
                buf[off] = vb;
                let vg = blend_channel(fg.1, buf[off + 1], a16);
                buf[off + 1] = vg;
                let vr = blend_channel(fg.0, buf[off + 2], a16);
                buf[off + 2] = vr;
                buf[off + 3] = 0xFF;
            }
            proof {
                assert forall|i: int| 0 <= i < n implies #[trigger] buf@[i] == if in_rect_bytes(
                    s,
                    x0 as int,
                    x1 as int,
                    y0 as int,
                    py as int,
                    i,
                ) || (row_base <= i < row_base + (px + 1) * 4 && x0 * 4 <= i - row_base) {
                    target[i]
                } else {
                    b0[i]
                } by {
                    lemma_row_of(i, s);
                    if off <= i < off + 4 {
                        lemma_byte_of(py as int, s, px as int, i - off);
                        assert(!in_rect_bytes(s, x0 as int, x1 as int, y0 as int, py as int, i));
                        assert(in_rect_bytes(s, x0 as int, x1 as int, y0 as int, y1 as int, i));
                        assert(prev[i] == b0[i]);
                        assert((i % s) / 4 == px) by {
                            vstd::arithmetic::div_mod::lemma_fundamental_div_mod_converse(
                                px * 4 + (i - off),
                                4,
                                px as int,
                                i - off,
                            );
                        }
                        assert(mask_alpha(mask@, mask_w as int, mr0 as int, mc0 as int, x0 as int, y0 as int, s, i) == a);
                    } else if row_base <= i < row_base + s {
                        lemma_byte_of(py as int, s, 0, 0);
                        vstd::arithmetic::div_mod::lemma_fundamental_div_mod_converse(i, s, py as int, i - row_base);
                    }
                }
            }
            px = px + 1;
        }
        proof {
            assert forall|i: int| 0 <= i < n implies #[trigger] buf@[i] == if in_rect_bytes(
                s,
                x0 as int,
                x1 as int,
                y0 as int,
                py + 1,
                i,
            ) {
                target[i]
            } else {
                b0[i]
            } by {
                lemma_row_of(i, s);
                if row_base <= i < row_base + s {
                    vstd::arithmetic::div_mod::lemma_fundamental_div_mod_converse(i, s, py as int, i - row_base);
                } else if i < row_base {
                    assert(i / s < py) by (nonlinear_arith)
                        requires
                            i < row_base,
                            row_base == py * s,
                            i == (i / s) * s + i % s,
                            0 <= i % s,
                            s > 0,
                    ;
                } else {
                    assert(i / s > py) by (nonlinear_arith)
                        requires
                            i >= row_base + s,
                            row_base == py * s,
                            i == (i / s) * s + i % s,
                            i % s < s,
                            s > 0,
                    ;
                }
            }
        }
        py = py + 1;
    }
    assert forall|i: int| 0 <= i < n implies #[trigger] buf@[i] == target[i] by {
        if !in_rect_bytes(s, x0 as int, x1 as int, y0 as int, y1 as int, i) {
        }
    }
    assert(buf@ =~= target);
}

/// `a` if it is smaller than `b`, else `b`.
pub open spec fn min_int(a: int, b: int) -> int {
    if a < b { a } else { b }
}

/// `a` if it is larger than `b`, else `b`.
pub open spec fn max_int(a: int, b: int) -> int {
    if a > b { a } else { b }
}

/// The buffer after drawing a box-drawing coverage mask at the cell
/// rectangle `rect` (mask row-major, `rect.w` wide), clipped to the surface.
pub open spec fn spec_box_glyph(buf: Seq<u8>, w: u32, h: u32, s: u32, rect: Rect, alpha: Seq<u8>, fg: Bgra) -> Seq<u8> {
    let row_end = min_int(rect.h as int, max_int(h - rect.y, 0));
    let col_end = min_int(rect.w as int, max_int(w - rect.x, 0));
    if row_end == 0 || col_end == 0 {
        buf
    } else {
        spec_mask_blit(buf, s as int, rect.x as int, rect.x + col_end, rect.y as int, rect.y + row_end, alpha, rect.w as int, 0, 0, fg)
    }
}

proof fn lemma_rows_in_buffer(s: u32, y1: int, h: u32, len: int)
    requires
        0 <= y1 <= h,
        s * h <= len,
    ensures
        s * y1 <= s * h,
{
    assert(s * y1 <= s * h) by (nonlinear_arith)
        requires
            0 <= y1 <= h,
    ;
}

/// Draw a box-drawing glyph directly at the cell rectangle (no baseline
/// offset), blending `fg_color` through the coverage mask `alpha_buf`.
pub fn draw_box_glyph(surface: &mut Surface<'_>, rect: &Rect, alpha_buf: &[u8], fg_color: Bgra)
    requires
        surface_wf(old(surface).width, old(surface).height, old(surface).stride, old(surface).buf@.len() as int),
        rect.h * rect.w <= alpha_buf@.len(),
    ensures
        final(final(surface).buf)@ == final(old(surface).buf)@,
        final(surface).width == old(surface).width,
        final(surface).height == old(surface).height,
        final(surface).stride == old(surface).stride,
        final(surface).buf@ == spec_box_glyph(
            old(surface).buf@,
            old(surface).width,
            old(surface).height,
            old(surface).stride,
            *rect,
            alpha_buf@,
            fg_color,
        ),
{
    let avail_h = surface.height.saturating_sub(rect.y);
    let avail_w = surface.width.saturating_sub(rect.x);
    let row_end = if rect.h < avail_h { rect.h } else { avail_h };
    let col_end = if rect.w < avail_w { rect.w } else { avail_w };
    if row_end == 0 || col_end == 0 {
        return;
    }
    proof {
        lemma_rows_in_buffer(surface.stride, rect.y + row_end, surface.height, surface.buf@.len() as int);
        assert(row_end * rect.w <= rect.h * rect.w) by (nonlinear_arith)
            requires
                row_end <= rect.h,
        ;
    }
    blit_mask(
        surface.buf,
        surface.stride,
        rect.x,
        rect.x + col_end,
        rect.y,
        rect.y + row_end,
        alpha_buf,
        rect.w as usize,
        0,
        0,
        fg_color,
    );
}

/// Where a glyph lands: its left edge is `left` pixels right of the cell,
/// and its top is `top` pixels above the baseline, which sits four fifths
/// of the way down the cell.
pub open spec fn glyph_x0(cell_x: u32, left: i32) -> int {
    cell_x + left
}

pub open spec fn glyph_y0(cell_y: u32, cell_h: u32, top: i32) -> int {
    cell_y + (cell_h * 4) / 5 - top
}

/// The placement arithmetic stays within `i32`, as the drawing code needs.
pub open spec fn glyph_fits(cell_x: u32, cell_y: u32, cell_h: u32, g: GlyphImage, w: u32, h: u32) -> bool {
    let gx0 = glyph_x0(cell_x, g.left);
    let gy0 = glyph_y0(cell_y, cell_h, g.top);
    &&& cell_x <= i32::MAX && cell_y <= i32::MAX && cell_h * 4 <= i32::MAX
    &&& g.width <= i32::MAX && g.height <= i32::MAX && w <= i32::MAX && h <= i32::MAX
    &&& cell_y + (cell_h * 4) / 5 <= i32::MAX
    &&& i32::MIN < gx0 <= i32::MAX
    &&& i32::MIN < gy0 <= i32::MAX
    &&& w - gx0 <= i32::MAX
    &&& h - gy0 <= i32::MAX
    &&& g.width * g.height <= g.alpha@.len()
}

/// The buffer after drawing a font glyph in the cell at `(cell_x, cell_y)`
/// of height `cell_h`, clipped to the surface.
pub open spec fn spec_glyph(
    buf: Seq<u8>,
    w: u32,
    h: u32,
    s: u32,
    cell_x: u32,
    cell_y: u32,
    cell_h: u32,
    g: GlyphImage,
    fg: Bgra,
) -> Seq<u8> {
    let gx0 = glyph_x0(cell_x, g.left);
    let gy0 = glyph_y0(cell_y, cell_h, g.top);
    let row_start = max_int(0, -gy0);
    let row_end = max_int(min_int(g.height as int, h - gy0), 0);
    let col_start = max_int(0, -gx0);
    let col_end = max_int(min_int(g.width as int, w - gx0), 0);
    if row_start >= row_end || col_start >= col_end {
        buf
    } else {
        let oy = max_int(gy0, 0);
        let ox = max_int(gx0, 0);
        spec_mask_blit(
            buf,
            s as int,
            ox,
            ox + (col_end - col_start),
            oy,
            oy + (row_end - row_start),
            g.alpha@,
            g.width as int,
            row_start,
            col_start,
            fg,
        )
    }
}

/// Draw a font glyph in a cell, blending `fg_color` through its coverage.
pub fn draw_glyph(surface: &mut Surface<'_>, cell_x: u32, cell_y: u32, cell_h: u32, glyph: &GlyphImage, fg_color: Bgra)
    requires
        surface_wf(old(surface).width, old(surface).height, old(surface).stride, old(surface).buf@.len() as int),
        glyph_fits(cell_x, cell_y, cell_h, *glyph, old(surface).width, old(surface).height),
    ensures
        final(final(surface).buf)@ == final(old(surface).buf)@,
        final(surface).width == old(surface).width,
        final(surface).height == old(surface).height,
        final(surface).stride == old(surface).stride,
        final(surface).buf@ == spec_glyph(
            old(surface).buf@,
            old(surface).width,
            old(surface).height,
            old(surface).stride,
            cell_x,
            cell_y,
            cell_h,
            *glyph,
            fg_color,
        ),
{
    let baseline: i64 = cell_y as i64 + (cell_h as i64 * 4) / 5;
    let gx0: i64 = cell_x as i64 + glyph.left as i64;
    let gy0: i64 = baseline - glyph.top as i64;
    let gw: i64 = glyph.width as i64;
    let gh: i64 = glyph.height as i64;
    let sw: i64 = surface.width as i64;
    let sh: i64 = surface.height as i64;
    let row_start: i64 = if -gy0 > 0 { -gy0 } else { 0 };
    let re: i64 = if gh < sh - gy0 { gh } else { sh - gy0 };
    let row_end: i64 = if re > 0 { re } else { 0 };
    let col_start: i64 = if -gx0 > 0 { -gx0 } else { 0 };
    let ce: i64 = if gw < sw - gx0 { gw } else { sw - gx0 };
    let col_end: i64 = if ce > 0 { ce } else { 0 };
    if row_start >= row_end || col_start >= col_end {
        return;
    }
    let oy: i64 = if gy0 > 0 { gy0 } else { 0 };
    let ox: i64 = if gx0 > 0 { gx0 } else { 0 };
    let x1: i64 = ox + (col_end - col_start);
    let y1: i64 = oy + (row_end - row_start);
    proof {
        lemma_rows_in_buffer(surface.stride, y1 as int, surface.height, surface.buf@.len() as int);
        assert(row_end * gw <= gh * gw) by (nonlinear_arith)
            requires
                row_end <= gh,
                gw >= 0,
        ;
        assert(gh * gw == glyph.width * glyph.height) by (nonlinear_arith)
            requires
                gh == glyph.height,
                gw == glyph.width,
        ;
        assert((row_start + (y1 - oy)) * gw == row_end * gw);
    }
    blit_mask(
        surface.buf,
        surface.stride,
        ox as u32,
        x1 as u32,
        oy as u32,
        y1 as u32,
        glyph.alpha.as_slice(),
        gw as usize,
        row_start as usize,
        col_start as usize,
        fg_color,
    );
}

} // verus!
