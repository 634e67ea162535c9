//! The terminal cursor: block, bar, underline or hollow block.

use vstd::prelude::*;
use super::{Bgra, GridMetrics, Rect, Surface};
use super::primitives::{blend_byte, blend_rect_bytes, clamp_end, draw_rect, draw_rect_alpha, pixel_offset, px_byte, surface_wf};
use super::cell_style::spec_fill;
use crate::terminal::render::{CursorState, CursorStyle, RenderColors};

verus! {

/// Opacity of the block cursor blended over the cell.
pub const BLOCK_CURSOR_ALPHA: u8 = 128;

/// Whether the cursor is drawn this frame: it is visible, in the viewport,
/// and not in the off phase of a blink.
pub open spec fn cursor_drawn(cursor: CursorState, blink_visible: bool) -> bool {
    cursor.visible && cursor.in_viewport && !(cursor.blinking && !blink_visible)
}

/// Width of the cursor: two cells over a wide character.
pub open spec fn cursor_width(grid: GridMetrics, wide: bool) -> int {
    if wide { grid.cell_w * 2 } else { grid.cell_w as int }
}

/// Width of the bar cursor: an eighth of a cell, at least two pixels.
pub open spec fn bar_width(cell_w: u32) -> u32 {
    if cell_w / 8 >= 2 { (cell_w / 8) as u32 } else { 2 }
}

/// The cursor geometry fits in `u32`, as the drawing arithmetic needs.
pub open spec fn cursor_fits(grid: GridMetrics, cursor: CursorState, wide: bool) -> bool {
    let cx = cursor.x * grid.cell_w + grid.pad;
    let cy = cursor.y * grid.cell_h + grid.pad;
    &&& cx + grid.cell_w * 2 + 2 <= u32::MAX
    &&& cy + grid.cell_h <= u32::MAX
    &&& cursor.style == CursorStyle::Underline ==> cy + grid.cell_h >= 2
    &&& cursor.style == CursorStyle::BlockHollow ==> cy + grid.cell_h >= 1 && cy + 1 <= u32::MAX && cx + cursor_width(grid, wide) >= 1
}

/// The buffer after drawing the cursor.
pub open spec fn spec_cursor(
    buf: Seq<u8>,
    w: u32,
    h: u32,
    s: u32,
    grid: GridMetrics,
    cursor: CursorState,
    colors: RenderColors,
    blink_visible: bool,
    wide: bool,
) -> Seq<u8> {
    if !cursor_drawn(cursor, blink_visible) {
        buf
    } else {
        let cx = (cursor.x * grid.cell_w + grid.pad) as u32;
        let cy = (cursor.y * grid.cell_h + grid.pad) as u32;
        let color = match colors.cursor {
            Some(c) => c,
            None => colors.foreground,
        };
        let cw = cursor_width(grid, wide) as u32;
        match cursor.style {
            CursorStyle::Block => blend_rect_bytes(
                buf,
                s as int,
                cx as int,
                clamp_end(cx, cw, w) as int,
                cy as int,
                clamp_end(cy, grid.cell_h, h) as int,
                color,
                BLOCK_CURSOR_ALPHA as int,
            ),
            CursorStyle::Bar => spec_fill(buf, w, h, s, cx, cy, bar_width(grid.cell_w), grid.cell_h, color),
            CursorStyle::Underline => spec_fill(buf, w, h, s, cx, (cy + grid.cell_h - 2) as u32, cw, 2, color),
            CursorStyle::BlockHollow => {
                let b1 = spec_fill(buf, w, h, s, cx, cy, cw, 1, color);
                let b2 = spec_fill(b1, w, h, s, cx, (cy + grid.cell_h - 1) as u32, cw, 1, color);
                let b3 = spec_fill(b2, w, h, s, cx, cy, 1, grid.cell_h, color);
                spec_fill(b3, w, h, s, (cx + cw - 1) as u32, cy, 1, grid.cell_h, color)
            },
        }
    }
}

proof fn lemma_pixel_byte(s: int, px: int, py: int, k: int)
    requires
        0 <= px,
        0 <= py,
        0 <= k < 4,
        px * 4 + 4 <= s,
    ensures
        (py * s + px * 4 + k) / s == py,
        (py * s + px * 4 + k) % s == px * 4 + k,
        ((py * s + px * 4 + k) % s) % 4 == k,
{
    assert((py * s + px * 4 + k) / s == py && (py * s + px * 4 + k) % s == px * 4 + k) by (nonlinear_arith)
        requires
            0 <= px * 4 + k < s,
            0 <= py,
    {
        vstd::arithmetic::div_mod::lemma_fundamental_div_mod_converse(py * s + px * 4 + k, s, py, px * 4 + k);
    }
    assert((px * 4 + k) % 4 == k) by (nonlinear_arith)
        requires
            0 <= k < 4,
            0 <= px,
    {
        vstd::arithmetic::div_mod::lemma_fundamental_div_mod_converse(px * 4 + k, 4, px, k);
    }
}

/// The cursor is painted in the configured cursor colour, or in the
/// foreground colour when none is configured: byte `k` of the bar's top
/// pixel and of the underline's bottom pixel is that colour's byte, and the
/// block blends that colour over the cell at half opacity.
pub proof fn law_cursor_colour(
    buf: Seq<u8>,
    w: u32,
    h: u32,
    s: u32,
    grid: GridMetrics,
    cursor: CursorState,
    colors: RenderColors,
    blink_visible: bool,
    wide: bool,
    k: int,
)
    requires
        surface_wf(w, h, s, buf.len() as int),
        cursor_drawn(cursor, blink_visible),
        cursor_fits(grid, cursor, wide),
        grid.cell_w >= 1,
        grid.cell_h >= 2,
        cursor.x * grid.cell_w + grid.pad < w,
        cursor.y * grid.cell_h + grid.pad + grid.cell_h <= h,
        0 <= k < 4,
    ensures
        ({
            let cx = cursor.x * grid.cell_w + grid.pad;
            let cy = cursor.y * grid.cell_h + grid.pad;
            let out = spec_cursor(buf, w, h, s, grid, cursor, colors, blink_visible, wide);
            let top = pixel_offset(s as int, cx, cy) + k;
            let bottom = pixel_offset(s as int, cx, cy + grid.cell_h - 1) + k;
            &&& cursor.style == CursorStyle::Bar ==> (colors.cursor matches Some(c) ==> out[top] == px_byte(c, k))
                && (colors.cursor is None ==> out[top] == px_byte(colors.foreground, k))
            &&& cursor.style == CursorStyle::Underline ==> (colors.cursor matches Some(c) ==> out[bottom] == px_byte(
                c,
                k,
            )) && (colors.cursor is None ==> out[bottom] == px_byte(colors.foreground, k))
            &&& cursor.style == CursorStyle::Block ==> (colors.cursor matches Some(c) ==> out[top] == blend_byte(
                c,
                buf[top],
                BLOCK_CURSOR_ALPHA as int,
                k,
            )) && (colors.cursor is None ==> out[top] == blend_byte(
                colors.foreground,
                buf[top],
                BLOCK_CURSOR_ALPHA as int,
                k,
            ))
        }),
{
    let cx = cursor.x * grid.cell_w + grid.pad;
    let cy = cursor.y * grid.cell_h + grid.pad;
    assert(cx * 4 + 4 <= s) by (nonlinear_arith)
        requires
            cx < w,
            w * 4 <= s,
    ;
    assert((cy + grid.cell_h) * s <= h * s) by (nonlinear_arith)
        requires
            cy + grid.cell_h <= h,
    ;
    assert(s * h == h * s) by (nonlinear_arith);
    assert(cy * s + cx * 4 + 4 <= buf.len() && (cy + grid.cell_h - 1) * s + cx * 4 + 4 <= buf.len()) by (nonlinear_arith)
        requires
            cx * 4 + 4 <= s,
            (cy + grid.cell_h) * s <= h * s,
            h * s <= buf.len(),
            grid.cell_h >= 2,
            cy >= 0,
    ;
    lemma_pixel_byte(s as int, cx, cy, k);
    lemma_pixel_byte(s as int, cx, cy + grid.cell_h - 1, k);
}

/// Draw the terminal cursor.
pub fn draw_cursor(
    surface: &mut Surface<'_>,
    grid: &GridMetrics,
    cursor: &CursorState,
    colors: &RenderColors,
    blink_visible: bool,
    cursor_wide: bool,
)
    requires
        surface_wf(old(surface).width, old(surface).height, old(surface).stride, old(surface).buf@.len() as int),
        cursor_drawn(*cursor, blink_visible) ==> cursor_fits(*grid, *cursor, cursor_wide),
    ensures
        final(final(surface).buf)@ == final(old(surface).buf)@,
        final(surface).width == old(surface).width,
        final(surface).height == old(surface).height,
        final(surface).stride == old(surface).stride,
        final(surface).buf@.len() == old(surface).buf@.len(),
        final(surface).buf@ == spec_cursor(
            old(surface).buf@,
            old(surface).width,
            old(surface).height,
            old(surface).stride,
            *grid,
            *cursor,
            *colors,
            blink_visible,
            cursor_wide,
        ),
{
    if !cursor.visible || !cursor.in_viewport {
        return;
    }
    if cursor.blinking && !blink_visible {
        return;
    }
    assert(cursor.x * grid.cell_w <= cursor.x * grid.cell_w + grid.pad);
    assert(cursor.y * grid.cell_h <= cursor.y * grid.cell_h + grid.pad);
    let cx = cursor.x as u32 * grid.cell_w + grid.pad;
    let cy = cursor.y as u32 * grid.cell_h + grid.pad;
    let cursor_color = match colors.cursor {
        Some(c) => c,
        None => colors.foreground,
    };
    let cursor_w = if cursor_wide { grid.cell_w * 2 } else { grid.cell_w };
    match cursor.style {
        CursorStyle::Block => {
            let rect = Rect { x: cx, y: cy, w: cursor_w, h: grid.cell_h };
            draw_rect_alpha(surface, &rect, cursor_color, BLOCK_CURSOR_ALPHA);
        },
        CursorStyle::Bar => {
            let bar_w = if grid.cell_w / 8 >= 2 { grid.cell_w / 8 } else { 2 };
            let rect = Rect { x: cx, y: cy, w: bar_w, h: grid.cell_h };
            draw_rect(surface, &rect, cursor_color);
        },
        CursorStyle::Underline => {
            let rect = Rect { x: cx, y: cy + grid.cell_h - 2, w: cursor_w, h: 2 };
            draw_rect(surface, &rect, cursor_color);
        },
        CursorStyle::BlockHollow => {
            let top = Rect { x: cx, y: cy, w: cursor_w, h: 1 };
            let bottom = Rect { x: cx, y: cy + grid.cell_h - 1, w: cursor_w, h: 1 };
            let left_side = Rect { x: cx, y: cy, w: 1, h: grid.cell_h };
            let right_side = Rect { x: cx + cursor_w - 1, y: cy, w: 1, h: grid.cell_h };
            draw_rect(surface, &top, cursor_color);
            draw_rect(surface, &bottom, cursor_color);
            draw_rect(surface, &left_side, cursor_color);
            draw_rect(surface, &right_side, cursor_color);
        },
    }
}

} // verus!
