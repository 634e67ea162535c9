//! Procedural rendering of box drawing (U+2500–U+257F), block elements (U+2580–U+259F),
//! and powerline glyphs (U+E0B0–U+E0B3). Drawn pixel-perfect at any cell size.
//!
//! A glyph is an alpha buffer of `w * h` bytes, row-major: byte `i` is the
//! pixel at column `i % w` of row `i / w`; 255 is fully covered, 0 empty.

use vstd::prelude::*;

verus! {

// ---------------------------------------------------------------------------
// Specification
// ---------------------------------------------------------------------------

/// Codepoints that are drawn procedurally.
pub open spec fn spec_is_box_drawing(cp: u32) -> bool {
    (0x2500 <= cp <= 0x259F) || (0xE0B0 <= cp <= 0xE0B3)
}

/// Line styles of the four arms `(right, down, left, up)` of a box drawing
/// character: 0 = none, 1 = light, 2 = heavy, 3 = double.
pub open spec fn spec_box_segments(cp: u32) -> (u8, u8, u8, u8) {
    if cp == 0x2500 || cp == 0x2504 || cp == 0x2508 || cp == 0x254C {
        (1, 0, 1, 0)
    } else if cp == 0x2501 || cp == 0x2505 || cp == 0x2509 || cp == 0x254D {
        (2, 0, 2, 0)
    } else if cp == 0x2502 || cp == 0x2506 || cp == 0x250A || cp == 0x254E {
        (0, 1, 0, 1)
    } else if cp == 0x2503 || cp == 0x2507 || cp == 0x250B || cp == 0x254F {
        (0, 2, 0, 2)
    } else if cp == 0x250C || cp == 0x256D {
        (1, 1, 0, 0)
    } else if cp == 0x250D {
        (2, 1, 0, 0)
    } else if cp == 0x250E {
        (1, 2, 0, 0)
    } else if cp == 0x250F {
        (2, 2, 0, 0)
    } else if cp == 0x2510 || cp == 0x256E {
        (0, 1, 1, 0)
    } else if cp == 0x2511 {
        (0, 1, 2, 0)
    } else if cp == 0x2512 {
        (0, 2, 1, 0)
    } else if cp == 0x2513 {
        (0, 2, 2, 0)
    } else if cp == 0x2514 || cp == 0x2570 {
        (1, 0, 0, 1)
    } else if cp == 0x2515 {
        (2, 0, 0, 1)
    } else if cp == 0x2516 {
        (1, 0, 0, 2)
    } else if cp == 0x2517 {
        (2, 0, 0, 2)
    } else if cp == 0x2518 || cp == 0x256F {
        (0, 0, 1, 1)
    } else if cp == 0x2519 {
        (0, 0, 2, 1)
    } else if cp == 0x251A {
        (0, 0, 1, 2)
    } else if cp == 0x251B {
        (0, 0, 2, 2)
    } else if 0x251C <= cp <= 0x254B {
        spec_box_segments_junctions(cp)
    } else if 0x2550 <= cp <= 0x256C {
        spec_box_segments_double(cp)
    } else if 0x2574 <= cp <= 0x257F {
        spec_box_segments_half(cp)
    } else {
        (0, 0, 0, 0)
    }
}

/// Arms of the T-pieces and crosses U+251C..U+254B.
pub open spec fn spec_box_segments_junctions(cp: u32) -> (u8, u8, u8, u8) {
    if cp == 0x251C { (1, 1, 0, 1) }
    else if cp == 0x251D { (2, 1, 0, 1) }
    else if cp == 0x251E { (1, 1, 0, 2) }
    else if cp == 0x251F { (1, 2, 0, 1) }
    else if cp == 0x2520 { (1, 2, 0, 2) }
    else if cp == 0x2521 { (2, 1, 0, 2) }
    else if cp == 0x2522 { (2, 2, 0, 1) }
    else if cp == 0x2523 { (2, 2, 0, 2) }
    else if cp == 0x2524 { (0, 1, 1, 1) }
    else if cp == 0x2525 { (0, 1, 2, 1) }
    else if cp == 0x2526 { (0, 1, 1, 2) }
    else if cp == 0x2527 { (0, 2, 1, 1) }
    else if cp == 0x2528 { (0, 2, 1, 2) }
    else if cp == 0x2529 { (0, 1, 2, 2) }
    else if cp == 0x252A { (0, 2, 2, 1) }
    else if cp == 0x252B { (0, 2, 2, 2) }
    else if cp == 0x252C { (1, 1, 1, 0) }
    else if cp == 0x252D { (1, 1, 2, 0) }
    else if cp == 0x252E { (2, 1, 1, 0) }
    else if cp == 0x252F { (2, 1, 2, 0) }
    else if cp == 0x2530 { (1, 2, 1, 0) }
    else if cp == 0x2531 { (1, 2, 2, 0) }
    else if cp == 0x2532 { (2, 2, 1, 0) }
    else if cp == 0x2533 { (2, 2, 2, 0) }
    else if cp == 0x2534 { (1, 0, 1, 1) }
    else if cp == 0x2535 { (1, 0, 2, 1) }
    else if cp == 0x2536 { (2, 0, 1, 1) }
    else if cp == 0x2537 { (2, 0, 2, 1) }
    else if cp == 0x2538 { (1, 0, 1, 2) }
    else if cp == 0x2539 { (1, 0, 2, 2) }
    else if cp == 0x253A { (2, 0, 1, 2) }
    else if cp == 0x253B { (2, 0, 2, 2) }
    else if cp == 0x253C { (1, 1, 1, 1) }
    else if cp == 0x253D { (1, 1, 2, 1) }
    else if cp == 0x253E { (2, 1, 1, 1) }
    else if cp == 0x253F { (2, 1, 2, 1) }
    else if cp == 0x2540 { (1, 1, 1, 2) }
    else if cp == 0x2541 { (1, 2, 1, 1) }
    else if cp == 0x2542 { (1, 2, 1, 2) }
    else if cp == 0x2543 { (1, 1, 2, 2) }
    else if cp == 0x2544 { (2, 1, 1, 2) }
    else if cp == 0x2545 { (1, 2, 2, 1) }
    else if cp == 0x2546 { (2, 2, 1, 1) }
    else if cp == 0x2547 { (2, 1, 2, 2) }
    else if cp == 0x2548 { (2, 2, 2, 1) }
    else if cp == 0x2549 { (1, 2, 2, 2) }
    else if cp == 0x254A { (2, 2, 1, 2) }
    else if cp == 0x254B { (2, 2, 2, 2) }
    else { (0, 0, 0, 0) }
}

/// Arms of the double-line characters U+2550..U+256C.
pub open spec fn spec_box_segments_double(cp: u32) -> (u8, u8, u8, u8) {
    if cp == 0x2550 { (3, 0, 3, 0) }
    else if cp == 0x2551 { (0, 3, 0, 3) }
    else if cp == 0x2552 { (3, 1, 0, 0) }
    else if cp == 0x2553 { (1, 3, 0, 0) }
    else if cp == 0x2554 { (3, 3, 0, 0) }
    else if cp == 0x2555 { (0, 1, 3, 0) }
    else if cp == 0x2556 { (0, 3, 1, 0) }
    else if cp == 0x2557 { (0, 3, 3, 0) }
    else if cp == 0x2558 { (3, 0, 0, 1) }
    else if cp == 0x2559 { (1, 0, 0, 3) }
    else if cp == 0x255A { (3, 0, 0, 3) }
    else if cp == 0x255B { (0, 0, 3, 1) }
    else if cp == 0x255C { (0, 0, 1, 3) }
    else if cp == 0x255D { (0, 0, 3, 3) }
    else if cp == 0x255E { (3, 1, 0, 1) }
    else if cp == 0x255F { (1, 3, 0, 3) }
    else if cp == 0x2560 { (3, 3, 0, 3) }
    else if cp == 0x2561 { (0, 1, 3, 1) }
    else if cp == 0x2562 { (0, 3, 1, 3) }
    else if cp == 0x2563 { (0, 3, 3, 3) }
    else if cp == 0x2564 { (3, 1, 3, 0) }
    else if cp == 0x2565 { (1, 3, 1, 0) }
    else if cp == 0x2566 { (3, 3, 3, 0) }
    else if cp == 0x2567 { (3, 0, 3, 1) }
    else if cp == 0x2568 { (1, 0, 1, 3) }
    else if cp == 0x2569 { (3, 0, 3, 3) }
    else if cp == 0x256A { (3, 1, 3, 1) }
    else if cp == 0x256B { (1, 3, 1, 3) }
    else if cp == 0x256C { (3, 3, 3, 3) }
    else { (0, 0, 0, 0) }
}

/// Arms of the half and mixed-weight lines U+2574..U+257F.
pub open spec fn spec_box_segments_half(cp: u32) -> (u8, u8, u8, u8) {
    if cp == 0x2574 { (0, 0, 1, 0) }
    else if cp == 0x2575 { (0, 0, 0, 1) }
    else if cp == 0x2576 { (1, 0, 0, 0) }
    else if cp == 0x2577 { (0, 1, 0, 0) }
    else if cp == 0x2578 { (0, 0, 2, 0) }
    else if cp == 0x2579 { (0, 0, 0, 2) }
    else if cp == 0x257A { (2, 0, 0, 0) }
    else if cp == 0x257B { (0, 2, 0, 0) }
    else if cp == 0x257C { (2, 0, 1, 0) }
    else if cp == 0x257D { (0, 2, 0, 1) }
    else if cp == 0x257E { (1, 0, 2, 0) }
    else if cp == 0x257F { (0, 1, 0, 2) }
    else { (0, 0, 0, 0) }
}

/// Row `r` of a rectangle: the `rw` bytes from column `x` of that row (rows
/// `w` bytes apart), when the whole run fits in a buffer of `n` bytes; byte
/// `i` is one of them.
pub open spec fn rect_row_hit(n: int, w: int, x: int, r: int, rw: int, i: int) -> bool {
    r * w + x + rw <= n && r * w + x <= i < r * w + x + rw
}

/// The bytes that `fill_rect` sets: those of the rows `y .. y + rh` of the
/// rectangle whose run fits in the buffer.
pub open spec fn rect_fills(n: int, w: int, x: int, y: int, rw: int, rh: int, i: int) -> bool {
    exists|r: int| y <= r < y + rh && #[trigger] rect_row_hit(n, w, x, r, rw, i)
}

/// Byte `i` (of a buffer of `n` bytes) lies in the run of `len` bytes that
/// starts at column `off` of row `r`; a run past the end of its row
/// continues at the start of the next one.
pub open spec fn run_hit(n: int, w: int, r: int, off: int, len: int, i: int) -> bool {
    0 <= i < n && r * w + off <= i < r * w + off + len
}

/// Byte `i` lies in the run of `len` bytes at column `off` of one of the
/// rows `r1 .. r2`.
pub open spec fn rows_hit(n: int, w: int, r1: int, r2: int, off: int, len: int, i: int) -> bool {
    exists|r: int| r1 <= r < r2 && #[trigger] run_hit(n, w, r, off, len, i)
}

/// Pixel `(c, r)` lies in the rectangle at `(x, y)` of size `rw` by `rh`.
pub open spec fn in_rect(x: int, y: int, rw: int, rh: int, c: int, r: int) -> bool {
    x <= c < x + rw && y <= r < y + rh
}

/// Block elements U+2580..U+2595 except the shades, and the quadrants
/// U+2596..U+259F: whether pixel `(c, r)` of a `w` by `h` cell is covered.
pub open spec fn block_pixel(cp: u32, w: int, h: int, c: int, r: int) -> bool {
    let hw = w / 2;
    let hh = h / 2;
    if cp == 0x2580 { in_rect(0, 0, w, hh, c, r) }
    else if cp == 0x2581 { in_rect(0, h - h / 8, w, h / 8, c, r) }
    else if cp == 0x2582 { in_rect(0, h - h / 4, w, h / 4, c, r) }
    else if cp == 0x2583 { in_rect(0, h - h * 3 / 8, w, h * 3 / 8, c, r) }
    else if cp == 0x2584 { in_rect(0, hh, w, h - hh, c, r) }
    else if cp == 0x2585 { in_rect(0, h - h * 5 / 8, w, h * 5 / 8, c, r) }
    else if cp == 0x2586 { in_rect(0, h - h * 3 / 4, w, h * 3 / 4, c, r) }
    else if cp == 0x2587 { in_rect(0, h - h * 7 / 8, w, h * 7 / 8, c, r) }
    else if cp == 0x2588 { in_rect(0, 0, w, h, c, r) }
    else if cp == 0x2589 { in_rect(0, 0, w * 7 / 8, h, c, r) }
    else if cp == 0x258A { in_rect(0, 0, w * 3 / 4, h, c, r) }
    else if cp == 0x258B { in_rect(0, 0, w * 5 / 8, h, c, r) }
    else if cp == 0x258C { in_rect(0, 0, hw, h, c, r) }
    else if cp == 0x258D { in_rect(0, 0, w * 3 / 8, h, c, r) }
    else if cp == 0x258E { in_rect(0, 0, w / 4, h, c, r) }
    else if cp == 0x258F { in_rect(0, 0, w / 8, h, c, r) }
    else if cp == 0x2590 { in_rect(hw, 0, w - hw, h, c, r) }
    else if cp == 0x2591 { (c + r) % 4 == 0 }
    else if cp == 0x2592 { (c + r) % 2 == 0 }
    else if cp == 0x2593 { (c + r) % 4 != 0 }
    else if cp == 0x2594 { in_rect(0, 0, w, h / 8, c, r) }
    else if cp == 0x2595 { in_rect(w - w / 8, 0, w / 8, h, c, r) }
    else if cp == 0x2596 { in_rect(0, hh, hw, h - hh, c, r) }
    else if cp == 0x2597 { in_rect(hw, hh, w - hw, h - hh, c, r) }
    else if cp == 0x2598 { in_rect(0, 0, hw, hh, c, r) }
    else if cp == 0x2599 { in_rect(0, 0, hw, hh, c, r) || in_rect(0, hh, w, h - hh, c, r) }
    else if cp == 0x259A { in_rect(0, 0, hw, hh, c, r) || in_rect(hw, hh, w - hw, h - hh, c, r) }
    else if cp == 0x259B { in_rect(0, 0, w, hh, c, r) || in_rect(0, hh, hw, h - hh, c, r) }
    else if cp == 0x259C { in_rect(0, 0, w, hh, c, r) || in_rect(hw, hh, w - hw, h - hh, c, r) }
    else if cp == 0x259D { in_rect(hw, 0, w - hw, hh, c, r) }
    else if cp == 0x259E { in_rect(hw, 0, w - hw, hh, c, r) || in_rect(0, hh, hw, h - hh, c, r) }
    else if cp == 0x259F { in_rect(hw, 0, w - hw, hh, c, r) || in_rect(0, hh, w, h - hh, c, r) }
    else { false }
}

/// Thickness of a heavy line in a cell `w` pixels wide.
pub open spec fn thick_width(w: int) -> int {
    if w / 4 > 2 { w / 4 } else { 2 }
}

/// `a - b`, or 0 when `b > a`.
pub open spec fn sat_sub(a: int, b: int) -> int {
    if a >= b { a - b } else { 0 }
}

/// Bytes of a horizontal arm of style `style` spanning columns `x1 .. x2`
/// around row `cy`.
pub open spec fn hseg_hit(n: int, w: int, x1: int, x2: int, cy: int, style: u8, i: int) -> bool {
    let thick = thick_width(w);
    let gap = if thick > 2 { thick } else { 2 };
    if style == 1 {
        rows_hit(n, w, cy, cy + 1, x1, x2 - x1, i)
    } else if style == 2 {
        let ys = sat_sub(cy, thick / 2);
        rows_hit(n, w, ys, ys + thick, x1, x2 - x1, i)
    } else if style == 3 {
        let top = sat_sub(cy, gap / 2 + 1);
        let bot = cy + gap / 2;
        rows_hit(n, w, top, top + 1, x1, x2 - x1, i) || rows_hit(n, w, bot, bot + 1, x1, x2 - x1, i)
    } else {
        false
    }
}

/// Bytes of a vertical arm of style `style` spanning rows `y1 .. y2` around
/// column `cx`.
pub open spec fn vseg_hit(n: int, w: int, cx: int, y1: int, y2: int, style: u8, i: int) -> bool {
    let thick = thick_width(w);
    let gap = if thick > 2 { thick } else { 2 };
    if style == 1 {
        rows_hit(n, w, y1, y2, cx, 1, i)
    } else if style == 2 {
        rows_hit(n, w, y1, y2, sat_sub(cx, thick / 2), thick, i)
    } else if style == 3 {
        rows_hit(n, w, y1, y2, sat_sub(cx, gap / 2 + 1), 1, i) || rows_hit(
            n,
            w,
            y1,
            y2,
            cx + gap / 2,
            1,
            i,
        )
    } else {
        false
    }
}

/// Box drawing U+2500..U+257F: byte `i` of a `w` by `h` cell is covered by
/// one of the four arms, each running from the cell's edge to its centre.
pub open spec fn box_hit(cp: u32, w: int, h: int, i: int) -> bool {
    let n = w * h;
    let cx = w / 2;
    let cy = h / 2;
    let s = spec_box_segments(cp);
    hseg_hit(n, w, cx, w, cy, s.0, i) || hseg_hit(n, w, 0, cx + 1, cy, s.2, i) || vseg_hit(
        n,
        w,
        cx,
        cy,
        h,
        s.1,
        i,
    ) || vseg_hit(n, w, cx, 0, cy + 1, s.3, i)
}

/// Width of the powerline triangle in row `r` of a `w` by `h` cell: growing
/// linearly to the full width at the middle row and shrinking back.
pub open spec fn tri_width(w: int, h: int, r: int) -> int {
    if h > 1 {
        let half = h / 2;
        if r <= half {
            (r * w) / half
        } else {
            ((h - 1 - r) * w) / half
        }
    } else {
        w
    }
}

/// Powerline glyphs U+E0B0..U+E0B3: whether pixel `(c, r)` is covered.
pub open spec fn powerline_pixel(cp: u32, w: int, h: int, c: int, r: int) -> bool {
    let last = sat_sub(w, 1);
    if cp == 0xE0B0 {
        c < tri_width(w, h, r)
    } else if cp == 0xE0B1 {
        c == if tri_width(w, h, r) < last { tri_width(w, h, r) } else { last }
    } else if cp == 0xE0B2 {
        w - tri_width(w, h, r) <= c
    } else if cp == 0xE0B3 {
        let edge = if h > 1 { tri_width(w, h, r) } else { 0 };
        c == last - (if edge < last { edge } else { last })
    } else {
        false
    }
}

/// Whether byte `i` of the `w` by `h` alpha buffer of `cp` is covered.
pub open spec fn glyph_hit(cp: u32, w: int, h: int, i: int) -> bool {
    0 <= i < w * h && if 0x2580 <= cp <= 0x259F {
        block_pixel(cp, w, h, i % w, i / w)
    } else if 0x2500 <= cp <= 0x257F {
        box_hit(cp, w, h, i)
    } else if 0xE0B0 <= cp <= 0xE0B3 {
        powerline_pixel(cp, w, h, i % w, i / w)
    } else {
        false
    }
}

/// The alpha buffer of `cp` in a `w` by `h` cell.
pub open spec fn glyph_alpha(cp: u32, w: int, h: int) -> Seq<u8> {
    Seq::new((w * h) as nat, |i: int| if glyph_hit(cp, w, h, i) { 255u8 } else { 0u8 })
}


// ---------------------------------------------------------------------------
// Entry points
// ---------------------------------------------------------------------------

/// Check if a codepoint should be drawn procedurally.
pub fn is_box_drawing(cp: u32) -> (r: bool)
    ensures
        r == spec_is_box_drawing(cp),
{
    (0x2500 <= cp && cp <= 0x257F) || (0x2580 <= cp && cp <= 0x259F) || (0xE0B0 <= cp && cp <= 0xE0B3)
}

/// Draw a box/block character into a caller-provided alpha buffer.
/// `buf` must be at least `cell_w * cell_h` bytes; its first `cell_w * cell_h`
/// bytes are zeroed before drawing and the rest are left alone.
/// Returns `true` if the codepoint was handled, `false` otherwise.
pub fn draw_box_char_into(cp: u32, cell_w: u32, cell_h: u32, buf: &mut [u8]) -> (handled: bool)
    ensures
        final(buf)@.len() == old(buf)@.len(),
        handled == (cell_w > 0 && cell_h > 0 && cell_w * cell_h <= old(buf)@.len() && spec_is_box_drawing(cp)),
        (cell_w > 0 && cell_h > 0 && cell_w * cell_h <= old(buf)@.len()) ==> forall|j: int|
            0 <= j < old(buf)@.len() ==> #[trigger] final(buf)@[j] == if j < cell_w * cell_h {
                if glyph_hit(cp, cell_w as int, cell_h as int, j) { 255u8 } else { 0u8 }
            } else {
                old(buf)@[j]
            },
        !(cell_w > 0 && cell_h > 0 && cell_w * cell_h <= old(buf)@.len()) ==> final(buf)@ == old(buf)@,
{
    let w = cell_w as usize;
    let h = cell_h as usize;
    let len = buf.len();
    if w == 0 || h == 0 {
        return false;
    }
    let needed = match w.checked_mul(h) {
        Some(v) => v,
        None => return false,
    };
    if len < needed {
        return false;
    }
    let ghost b0 = buf@;
    let mut k: usize = 0;
    while k < needed
        invariant
            needed <= len,
            buf@.len() == len,
            len == b0.len(),
            0 <= k <= needed,
            forall|j: int| 0 <= j < len ==> #[trigger] buf@[j] == if j < k { 0u8 } else { b0[j] },
        decreases needed - k,
    {
        buf[k] = 0u8;
        k = k + 1;
    }
    if 0x2580 <= cp && cp <= 0x259F {
        draw_block_element(buf, cp, w, h);
        true
    } else if 0x2500 <= cp && cp <= 0x257F {
        draw_box_drawing(buf, cp, w, h);
        true
    } else if 0xE0B0 <= cp && cp <= 0xE0B3 {
        draw_powerline(buf, cp, w, h);
        true
    } else {
        false
    }
}

/// Draw a box/block character into a cell-sized alpha buffer.
/// Returns a Vec<u8> of `cell_w * cell_h` alpha values (255 = fully opaque).
/// Returns `None` if the codepoint is not handled.
pub fn draw_box_char(cp: u32, cell_w: u32, cell_h: u32) -> (r: Option<Vec<u8>>)
    requires
        cell_w * cell_h <= usize::MAX,
    ensures
        r is Some <==> (cell_w > 0 && cell_h > 0 && spec_is_box_drawing(cp)),
        r matches Some(v) ==> v@ == glyph_alpha(cp, cell_w as int, cell_h as int),
{
    let w = cell_w as usize;
    let h = cell_h as usize;
    if w == 0 || h == 0 {
        return None;
    }
    let mut alpha: Vec<u8> = vec![0u8; w * h];
    if draw_box_char_into(cp, cell_w, cell_h, alpha.as_mut_slice()) {
        assert(alpha@ =~= glyph_alpha(cp, cell_w as int, cell_h as int));
        Some(alpha)
    } else {
        None
    }
}

// ---------------------------------------------------------------------------
// Painting primitives
// ---------------------------------------------------------------------------

/// Set to 255 the bytes `start .. start + len` of `alpha` that lie below `n`.
fn paint_span(alpha: &mut [u8], n: usize, start: usize, len: usize)
    requires
        n <= old(alpha)@.len(),
    ensures
        final(alpha)@.len() == old(alpha)@.len(),
        forall|j: int|
            0 <= j < old(alpha)@.len() ==> #[trigger] final(alpha)@[j] == if j < n && start <= j < start
                + len {
                255u8
            } else {
                old(alpha)@[j]
            },
{
    if start >= n {
        return;
    }
    let end: usize = if len < n - start { start + len } else { n };
    let mut k: usize = start;
    while k < end
        invariant
            start <= k <= end <= n <= alpha@.len(),
            alpha@.len() == old(alpha)@.len(),
            end == n || end == start + len,
            end <= start + len,
            forall|j: int|
                0 <= j < alpha@.len() ==> #[trigger] alpha@[j] == if start <= j < k {
                    255u8
                } else {
                    old(alpha)@[j]
                },
        decreases end - k,
    {
        alpha[k] = 255u8;
        k = k + 1;
    }
}

/// Offset of column `off` of row `base + dr` in a buffer whose rows are `w`
/// bytes apart, or `None` when it does not fit in a `usize`.
fn row_offset(base: usize, dr: usize, w: usize, off: usize) -> (r: Option<usize>)
    ensures
        r matches Some(s) ==> s == (base + dr) * w + off,
        r is None ==> (base + dr) * w + off > usize::MAX,
{
    if w == 0 {
        return Some(off);
    }
    match base.checked_add(dr) {
        None => {
            assert((base + dr) * w + off > usize::MAX) by (nonlinear_arith)
                requires
                    base + dr > usize::MAX,
                    w >= 1,
            ;
            None
        },
        Some(row) => match row.checked_mul(w) {
            None => None,
            Some(p) => p.checked_add(off),
        },
    }
}

/// Fill a rectangle of the `w`-byte-wide alpha buffer with 255: for each row
/// `y + dy` (`dy < rh`) the `rw` bytes from column `x`, when that whole run
/// lies inside the buffer; other rows are skipped.
pub fn fill_rect(alpha: &mut [u8], w: usize, x: usize, y: usize, rw: usize, rh: usize)
    ensures
        final(alpha)@.len() == old(alpha)@.len(),
        forall|j: int|
            0 <= j < old(alpha)@.len() ==> #[trigger] final(alpha)@[j] == if rect_fills(
                old(alpha)@.len() as int,
                w as int,
                x as int,
                y as int,
                rw as int,
                rh as int,
                j,
            ) {
                255u8
            } else {
                old(alpha)@[j]
            },
{
    let n = alpha.len();
    let ghost a0 = alpha@;
    let mut dy: usize = 0;
    while dy < rh
        invariant
            alpha@.len() == n,
            n == a0.len(),
            a0 == old(alpha)@,
            0 <= dy <= rh,
            forall|j: int|
                0 <= j < n ==> #[trigger] alpha@[j] == if rect_fills(
                    n as int,
                    w as int,
                    x as int,
                    y as int,
                    rw as int,
                    dy as int,
                    j,
                ) {
                    255u8
                } else {
                    a0[j]
                },
        decreases rh - dy,
    {
        let ghost r0 = y as int + dy as int;
        let ghost prev = alpha@;
        match row_offset(y, dy, w, x) {
            Some(start) => {
                if rw <= n && start <= n - rw {
                    paint_span(alpha, n, start, rw);
                }
            },
            None => {},
        }
        proof {
            assert forall|j: int| 0 <= j < n implies #[trigger] alpha@[j] == if rect_fills(
                n as int,
                w as int,
                x as int,
                y as int,
                rw as int,
                dy + 1,
                j,
            ) {
                255u8
            } else {
                a0[j]
            } by {
                let now = rect_fills(n as int, w as int, x as int, y as int, rw as int, dy + 1, j);
                let before = rect_fills(n as int, w as int, x as int, y as int, rw as int, dy as int, j);
                let hit = rect_row_hit(n as int, w as int, x as int, r0, rw as int, j);
                if before {
                    let r = choose|r: int| y <= r < y + dy && #[trigger] rect_row_hit(n as int, w as int, x as int, r, rw as int, j);
                    assert(y <= r < y + dy + 1 && rect_row_hit(n as int, w as int, x as int, r, rw as int, j));
                }
                if hit {
                    assert(y <= r0 < y + dy + 1 && rect_row_hit(n as int, w as int, x as int, r0, rw as int, j));
                }
                if now {
                    let r = choose|r: int| y <= r < y + dy + 1 && #[trigger] rect_row_hit(n as int, w as int, x as int, r, rw as int, j);
                    if r < r0 {
                        assert(before);
                    } else {
                        assert(hit);
                    }
                }
                assert(now == (before || hit));
                assert(alpha@[j] == if hit { 255u8 } else { prev[j] });
            }
        }
        dy = dy + 1;
    }
}

/// Paint, for each row `r1 .. r2`, the run of `len` bytes at column `off`
/// (bytes at or past `n` are left alone).
fn paint_rows(alpha: &mut [u8], n: usize, w: usize, r1: usize, r2: usize, off: usize, len: usize)
    requires
        n <= old(alpha)@.len(),
    ensures
        final(alpha)@.len() == old(alpha)@.len(),
        forall|j: int|
            0 <= j < old(alpha)@.len() ==> #[trigger] final(alpha)@[j] == if rows_hit(
                n as int,
                w as int,
                r1 as int,
                r2 as int,
                off as int,
                len as int,
                j,
            ) {
                255u8
            } else {
                old(alpha)@[j]
            },
{
    let ghost a0 = alpha@;
    if r2 <= r1 {
        assert forall|j: int| 0 <= j < a0.len() implies !rows_hit(n as int, w as int, r1 as int, r2 as int, off as int, len as int, j) by {}
        return;
    }
    let cnt = r2 - r1;
    let mut k: usize = 0;
    while k < cnt
        invariant
            alpha@.len() == a0.len(),
            a0 == old(alpha)@,
            n <= a0.len(),
            cnt == r2 - r1,
            0 <= k <= cnt,
            forall|j: int|
                0 <= j < a0.len() ==> #[trigger] alpha@[j] == if rows_hit(
                    n as int,
                    w as int,
                    r1 as int,
                    r1 + k,
                    off as int,
                    len as int,
                    j,
                ) {
                    255u8
                } else {
                    a0[j]
                },
        decreases cnt - k,
    {
        let ghost r0 = r1 as int + k as int;
        let ghost prev = alpha@;
        match row_offset(r1, k, w, off) {
            Some(start) => {
                paint_span(alpha, n, start, len);
            },
            None => {},
        }
        proof {
            assert forall|j: int| 0 <= j < a0.len() implies #[trigger] alpha@[j] == if rows_hit(
                n as int,
                w as int,
                r1 as int,
                r1 + k + 1,
                off as int,
                len as int,
                j,
            ) {
                255u8
            } else {
                a0[j]
            } by {
                let now = rows_hit(n as int, w as int, r1 as int, r1 + k + 1, off as int, len as int, j);
                let before = rows_hit(n as int, w as int, r1 as int, r1 + k, off as int, len as int, j);
                let hit = run_hit(n as int, w as int, r0, off as int, len as int, j);
                if before {
                    let r = choose|r: int| r1 <= r < r1 + k && #[trigger] run_hit(n as int, w as int, r, off as int, len as int, j);
                    assert(r1 <= r < r1 + k + 1 && run_hit(n as int, w as int, r, off as int, len as int, j));
                }
                if hit {
                    assert(r1 <= r0 < r1 + k + 1 && run_hit(n as int, w as int, r0, off as int, len as int, j));
                }
                if now {
                    let r = choose|r: int| r1 <= r < r1 + k + 1 && #[trigger] run_hit(n as int, w as int, r, off as int, len as int, j);
                    if r < r0 {
                        assert(before);
                    } else {
                        assert(hit);
                    }
                }
                assert(now == (before || hit));
            }
        }
        k = k + 1;
    }
}


// ---------------------------------------------------------------------------
// Index arithmetic
// ---------------------------------------------------------------------------

proof fn lemma_pixel_of(j: int, w: int)
    requires
        w > 0,
        j >= 0,
    ensures
        j == (j / w) * w + j % w,
        0 <= j % w < w,
        j / w >= 0,
{
    vstd::arithmetic::div_mod::lemma_fundamental_div_mod(j, w);
    vstd::arithmetic::div_mod::lemma_mod_pos_bound(j, w);
    vstd::arithmetic::div_mod::lemma_div_pos_is_pos(j, w);
    vstd::arithmetic::mul::lemma_mul_is_commutative(w, j / w);
}

proof fn lemma_index_of(r: int, w: int, c: int)
    requires
        w > 0,
        0 <= c < w,
    ensures
        (r * w + c) / w == r,
        (r * w + c) % w == c,
{
    vstd::arithmetic::div_mod::lemma_fundamental_div_mod_converse(r * w + c, w, r, c);
}

proof fn lemma_rows_before(r: int, h: int, w: int)
    requires
        0 <= r < h,
        w >= 0,
    ensures
        r * w + w <= h * w,
        r * w >= 0,
{
    assert(r * w + w <= h * w) by (nonlinear_arith)
        requires
            0 <= r < h,
            w >= 0,
    ;
    assert(r * w >= 0) by (nonlinear_arith)
        requires
            0 <= r,
            w >= 0,
    ;
}

/// Inside a `w` by `h` cell, a rectangle that stays in the cell sets exactly
/// its own pixels.
proof fn lemma_rect_fills_in_cell(
    len: int,
    w: int,
    h: int,
    x: int,
    y: int,
    rw: int,
    rh: int,
    j: int,
)
    requires
        w > 0,
        h >= 0,
        w * h <= len,
        0 <= x,
        0 <= y,
        0 <= rw,
        0 <= rh,
        x + rw <= w,
        y + rh <= h,
        0 <= j,
    ensures
        rect_fills(len, w, x, y, rw, rh, j) <==> (j < w * h && in_rect(x, y, rw, rh, j % w, j / w)),
{
    lemma_pixel_of(j, w);
    vstd::arithmetic::mul::lemma_mul_is_commutative(h, w);
    if rect_fills(len, w, x, y, rw, rh, j) {
        let r = choose|r: int| y <= r < y + rh && #[trigger] rect_row_hit(len, w, x, r, rw, j);
        lemma_index_of(r, w, j - r * w);
        lemma_rows_before(r, h, w);
    }
    if j < w * h && in_rect(x, y, rw, rh, j % w, j / w) {
        let r = j / w;
        lemma_rows_before(r, h, w);
        assert(rect_row_hit(len, w, x, r, rw, j));
    }
}

// ---------------------------------------------------------------------------
// Block elements
// ---------------------------------------------------------------------------

/// `fill_rect` on a rectangle inside the `w` by `h` cell at the front of
/// `alpha`, stated over the cell's pixels.
fn fill_cell_rect(alpha: &mut [u8], w: usize, h: usize, x: usize, y: usize, rw: usize, rh: usize)
    requires
        w > 0,
        w * h <= old(alpha)@.len(),
        x + rw <= w,
        y + rh <= h,
    ensures
        final(alpha)@.len() == old(alpha)@.len(),
        forall|j: int|
            0 <= j < old(alpha)@.len() ==> #[trigger] final(alpha)@[j] == if j < w * h && in_rect(
                x as int,
                y as int,
                rw as int,
                rh as int,
                j % (w as int),
                j / (w as int),
            ) {
                255u8
            } else {
                old(alpha)@[j]
            },
{
    let ghost a0 = alpha@;
    fill_rect(alpha, w, x, y, rw, rh);
    assert forall|j: int| 0 <= j < a0.len() implies #[trigger] alpha@[j] == if j < w * h && in_rect(
        x as int,
        y as int,
        rw as int,
        rh as int,
        j % (w as int),
        j / (w as int),
    ) {
        255u8
    } else {
        a0[j]
    } by {
        lemma_rect_fills_in_cell(a0.len() as int, w as int, h as int, x as int, y as int, rw as int, rh as int, j);
    }
}


/// Which pixels the shade `cp` (U+2591..U+2593) covers, by the sum of their
/// column and row.
pub open spec fn shade_on(cp: u32, s: int) -> bool {
    if cp == 0x2591 {
        s % 4 == 0
    } else if cp == 0x2592 {
        s % 2 == 0
    } else {
        s % 4 != 0
    }
}

/// Draw one of the shades U+2591..U+2593 as a dither pattern.
fn draw_shade(alpha: &mut [u8], w: usize, h: usize, cp: u32)
    requires
        w > 0,
        w * h <= old(alpha)@.len(),
        0x2591 <= cp <= 0x2593,
    ensures
        final(alpha)@.len() == old(alpha)@.len(),
        forall|j: int|
            0 <= j < old(alpha)@.len() ==> #[trigger] final(alpha)@[j] == if j < w * h && shade_on(
                cp,
                j % (w as int) + j / (w as int),
            ) {
                255u8
            } else {
                old(alpha)@[j]
            },
{
    let ghost a0 = alpha@;
    let ghost wi = w as int;
    let n = alpha.len();
    let mut y: usize = 0;
    while y < h
        invariant
            n == a0.len(),
            w > 0,
            w * h <= a0.len(),
            alpha@.len() == a0.len(),
            a0 == old(alpha)@,
            0x2591 <= cp <= 0x2593,
            0 <= y <= h,
            wi == w,
            forall|j: int|
                0 <= j < a0.len() ==> #[trigger] alpha@[j] == if j < y * wi && shade_on(cp, j % wi + j / wi) {
                    255u8
                } else {
                    a0[j]
                },
        decreases h - y,
    {
        proof {
            lemma_rows_before(y as int, h as int, wi);
            vstd::arithmetic::mul::lemma_mul_is_commutative(h as int, wi);
        }
        assert((w - 1) + (h - 1) < w * h) by (nonlinear_arith)
            requires
                w >= 1,
                h >= 1,
        ;
        let base: usize = y * w;
        let mut x: usize = 0;
        while x < w
            invariant
                w > 0,
                w * h <= a0.len(),
                alpha@.len() == a0.len(),
                0x2591 <= cp <= 0x2593,
                0 <= y < h,
                0 <= x <= w,
                wi == w,
                base == y * wi,
                base + wi <= a0.len(),
                n == a0.len(),
                (w - 1) + (h - 1) < n,
                forall|j: int|
                    0 <= j < a0.len() ==> #[trigger] alpha@[j] == if j < base + x && shade_on(cp, j % wi + j / wi) {
                        255u8
                    } else {
                        a0[j]
                    },
            decreases w - x,
        {
            let on = if cp == 0x2591 {
                (x + y) % 4 == 0
            } else if cp == 0x2592 {
                (x + y) % 2 == 0
            } else {
                (x + y) % 4 != 0
            };
            let idx = base + x;
            proof {
                lemma_index_of(y as int, wi, x as int);
                assert(on == shade_on(cp, (idx as int) % wi + (idx as int) / wi));
            }
            if on {
                alpha[idx] = 255u8;
            }
            x = x + 1;
        }
        assert((y + 1) * wi == y * wi + wi) by (nonlinear_arith);
        y = y + 1;
    }
    proof {
        vstd::arithmetic::mul::lemma_mul_is_commutative(h as int, wi);
    }
}

/// Draw a block element U+2580..U+259F.
fn draw_block_element(alpha: &mut [u8], cp: u32, w: usize, h: usize)
    requires
        w > 0,
        w <= u32::MAX,
        h <= u32::MAX,
        w * h <= old(alpha)@.len(),
        0x2580 <= cp <= 0x259F,
    ensures
        final(alpha)@.len() == old(alpha)@.len(),
        forall|j: int|
            0 <= j < old(alpha)@.len() ==> #[trigger] final(alpha)@[j] == if j < w * h && block_pixel(
                cp,
                w as int,
                h as int,
                j % (w as int),
                j / (w as int),
            ) {
                255u8
            } else {
                old(alpha)@[j]
            },
{
    let hw = w / 2;
    let hh = h / 2;
    let h8 = h / 8;
    let h4 = h / 4;
    let h38 = ((h as u64) * 3 / 8) as usize;
    let h58 = ((h as u64) * 5 / 8) as usize;
    let h34 = ((h as u64) * 3 / 4) as usize;
    let h78 = ((h as u64) * 7 / 8) as usize;
    let w8 = w / 8;
    let w4 = w / 4;
    let w38 = ((w as u64) * 3 / 8) as usize;
    let w58 = ((w as u64) * 5 / 8) as usize;
    let w34 = ((w as u64) * 3 / 4) as usize;
    let w78 = ((w as u64) * 7 / 8) as usize;
    if cp == 0x2580 {
        fill_cell_rect(alpha, w, h, 0, 0, w, hh);
    } else if cp == 0x2581 {
        fill_cell_rect(alpha, w, h, 0, h - h8, w, h8);
    } else if cp == 0x2582 {
        fill_cell_rect(alpha, w, h, 0, h - h4, w, h4);
    } else if cp == 0x2583 {
        fill_cell_rect(alpha, w, h, 0, h - h38, w, h38);
    } else if cp == 0x2584 {
        fill_cell_rect(alpha, w, h, 0, hh, w, h - hh);
    } else if cp == 0x2585 {
        fill_cell_rect(alpha, w, h, 0, h - h58, w, h58);
    } else if cp == 0x2586 {
        fill_cell_rect(alpha, w, h, 0, h - h34, w, h34);
    } else if cp == 0x2587 {
        fill_cell_rect(alpha, w, h, 0, h - h78, w, h78);
    } else if cp == 0x2588 {
        fill_cell_rect(alpha, w, h, 0, 0, w, h);
    } else if cp == 0x2589 {
        fill_cell_rect(alpha, w, h, 0, 0, w78, h);
    } else if cp == 0x258A {
        fill_cell_rect(alpha, w, h, 0, 0, w34, h);
    } else if cp == 0x258B {
        fill_cell_rect(alpha, w, h, 0, 0, w58, h);
    } else if cp == 0x258C {
        fill_cell_rect(alpha, w, h, 0, 0, hw, h);
    } else if cp == 0x258D {
        fill_cell_rect(alpha, w, h, 0, 0, w38, h);
    } else if cp == 0x258E {
        fill_cell_rect(alpha, w, h, 0, 0, w4, h);
    } else if cp == 0x258F {
        fill_cell_rect(alpha, w, h, 0, 0, w8, h);
    } else if cp == 0x2590 {
        fill_cell_rect(alpha, w, h, hw, 0, w - hw, h);
    } else if cp == 0x2591 || cp == 0x2592 || cp == 0x2593 {
        draw_shade(alpha, w, h, cp);
    } else if cp == 0x2594 {
        fill_cell_rect(alpha, w, h, 0, 0, w, h8);
    } else if cp == 0x2595 {
        fill_cell_rect(alpha, w, h, w - w8, 0, w8, h);
    } else if cp == 0x2596 {
        fill_cell_rect(alpha, w, h, 0, hh, hw, h - hh);
    } else if cp == 0x2597 {
        fill_cell_rect(alpha, w, h, hw, hh, w - hw, h - hh);
    } else if cp == 0x2598 {
        fill_cell_rect(alpha, w, h, 0, 0, hw, hh);
    } else if cp == 0x2599 {
        fill_cell_rect(alpha, w, h, 0, 0, hw, hh);
        fill_cell_rect(alpha, w, h, 0, hh, w, h - hh);
    } else if cp == 0x259A {
        fill_cell_rect(alpha, w, h, 0, 0, hw, hh);
        fill_cell_rect(alpha, w, h, hw, hh, w - hw, h - hh);
    } else if cp == 0x259B {
        fill_cell_rect(alpha, w, h, 0, 0, w, hh);
        fill_cell_rect(alpha, w, h, 0, hh, hw, h - hh);
    } else if cp == 0x259C {
        fill_cell_rect(alpha, w, h, 0, 0, w, hh);
        fill_cell_rect(alpha, w, h, hw, hh, w - hw, h - hh);
    } else if cp == 0x259D {
        fill_cell_rect(alpha, w, h, hw, 0, w - hw, hh);
    } else if cp == 0x259E {
        fill_cell_rect(alpha, w, h, hw, 0, w - hw, hh);
        fill_cell_rect(alpha, w, h, 0, hh, hw, h - hh);
    } else {
        fill_cell_rect(alpha, w, h, hw, 0, w - hw, hh);
        fill_cell_rect(alpha, w, h, 0, hh, w, h - hh);
    }
}

// ---------------------------------------------------------------------------
// Box drawing
// ---------------------------------------------------------------------------

/// Return (right, down, left, up) segment styles for a box drawing codepoint.
/// 0=none, 1=light, 2=heavy, 3=double
pub fn box_segments(cp: u32) -> (r: (u8, u8, u8, u8))
    ensures
        r == spec_box_segments(cp),
{
    // (right, down, left, up)
    match cp {
        // Light/heavy horizontal + dashes (same rendering)
        0x2500 | 0x2504 | 0x2508 | 0x254C => (1, 0, 1, 0), // ─ ┄ ┈ ╌
        0x2501 | 0x2505 | 0x2509 | 0x254D => (2, 0, 2, 0), // ━ ┅ ┉ ╍
        // Light/heavy vertical + dashes
        0x2502 | 0x2506 | 0x250A | 0x254E => (0, 1, 0, 1), // │ ┆ ┊ ╎
        0x2503 | 0x2507 | 0x250B | 0x254F => (0, 2, 0, 2), // ┃ ┇ ┋ ╏
        // Corners + rounded corners (same segments)
        0x250C | 0x256D => (1, 1, 0, 0), // ┌ ╭
        0x250D => (2, 1, 0, 0),          // ┍
        0x250E => (1, 2, 0, 0),          // ┎
        0x250F => (2, 2, 0, 0),          // ┏
        0x2510 | 0x256E => (0, 1, 1, 0), // ┐ ╮
        0x2511 => (0, 1, 2, 0),          // ┑
        0x2512 => (0, 2, 1, 0),          // ┒
        0x2513 => (0, 2, 2, 0),          // ┓
        0x2514 | 0x2570 => (1, 0, 0, 1), // └ ╰
        0x2515 => (2, 0, 0, 1),          // ┕
        0x2516 => (1, 0, 0, 2),          // ┖
        0x2517 => (2, 0, 0, 2),          // ┗
        0x2518 | 0x256F => (0, 0, 1, 1), // ┘ ╯
        0x2519 => (0, 0, 2, 1),          // ┙
        0x251A => (0, 0, 1, 2),          // ┚
        0x251B => (0, 0, 2, 2),          // ┛
        // T-pieces + cross pieces + double/half lines
        0x251C..=0x254B => box_segments_junctions(cp),
        0x2550..=0x256C => box_segments_double(cp),
        0x2574..=0x257F => box_segments_half(cp),
        _ => (0, 0, 0, 0),
    }
}

/// T-pieces and cross pieces (U+251C..U+254B).
fn box_segments_junctions(cp: u32) -> (r: (u8, u8, u8, u8))
    ensures
        r == spec_box_segments_junctions(cp),
{
    match cp {
        // T-pieces (left)
        0x251C => (1, 1, 0, 1),
        0x251D => (2, 1, 0, 1),
        0x251E => (1, 1, 0, 2),
        0x251F => (1, 2, 0, 1),
        0x2520 => (1, 2, 0, 2),
        0x2521 => (2, 1, 0, 2),
        0x2522 => (2, 2, 0, 1),
        0x2523 => (2, 2, 0, 2),
        // T-pieces (right)
        0x2524 => (0, 1, 1, 1),
        0x2525 => (0, 1, 2, 1),
        0x2526 => (0, 1, 1, 2),
        0x2527 => (0, 2, 1, 1),
        0x2528 => (0, 2, 1, 2),
        0x2529 => (0, 1, 2, 2),
        0x252A => (0, 2, 2, 1),
        0x252B => (0, 2, 2, 2),
        // T-pieces (top)
        0x252C => (1, 1, 1, 0),
        0x252D => (1, 1, 2, 0),
        0x252E => (2, 1, 1, 0),
        0x252F => (2, 1, 2, 0),
        0x2530 => (1, 2, 1, 0),
        0x2531 => (1, 2, 2, 0),
        0x2532 => (2, 2, 1, 0),
        0x2533 => (2, 2, 2, 0),
        // T-pieces (bottom)
        0x2534 => (1, 0, 1, 1),
        0x2535 => (1, 0, 2, 1),
        0x2536 => (2, 0, 1, 1),
        0x2537 => (2, 0, 2, 1),
        0x2538 => (1, 0, 1, 2),
        0x2539 => (1, 0, 2, 2),
        0x253A => (2, 0, 1, 2),
        0x253B => (2, 0, 2, 2),
        // Cross pieces
        0x253C => (1, 1, 1, 1),
        0x253D => (1, 1, 2, 1),
        0x253E => (2, 1, 1, 1),
        0x253F => (2, 1, 2, 1),
        0x2540 => (1, 1, 1, 2),
        0x2541 => (1, 2, 1, 1),
        0x2542 => (1, 2, 1, 2),
        0x2543 => (1, 1, 2, 2),
        0x2544 => (2, 1, 1, 2),
        0x2545 => (1, 2, 2, 1),
        0x2546 => (2, 2, 1, 1),
        0x2547 => (2, 1, 2, 2),
        0x2548 => (2, 2, 2, 1),
        0x2549 => (1, 2, 2, 2),
        0x254A => (2, 2, 1, 2),
        0x254B => (2, 2, 2, 2),
        _ => (0, 0, 0, 0),
    }
}

/// Double-line characters (U+2550..U+256C).
fn box_segments_double(cp: u32) -> (r: (u8, u8, u8, u8))
    ensures
        r == spec_box_segments_double(cp),
{
    match cp {
        0x2550 => (3, 0, 3, 0),
        0x2551 => (0, 3, 0, 3),
        0x2552 => (3, 1, 0, 0),
        0x2553 => (1, 3, 0, 0),
        0x2554 => (3, 3, 0, 0),
        0x2555 => (0, 1, 3, 0),
        0x2556 => (0, 3, 1, 0),
        0x2557 => (0, 3, 3, 0),
        0x2558 => (3, 0, 0, 1),
        0x2559 => (1, 0, 0, 3),
        0x255A => (3, 0, 0, 3),
        0x255B => (0, 0, 3, 1),
        0x255C => (0, 0, 1, 3),
        0x255D => (0, 0, 3, 3),
        0x255E => (3, 1, 0, 1),
        0x255F => (1, 3, 0, 3),
        0x2560 => (3, 3, 0, 3),
        0x2561 => (0, 1, 3, 1),
        0x2562 => (0, 3, 1, 3),
        0x2563 => (0, 3, 3, 3),
        0x2564 => (3, 1, 3, 0),
        0x2565 => (1, 3, 1, 0),
        0x2566 => (3, 3, 3, 0),
        0x2567 => (3, 0, 3, 1),
        0x2568 => (1, 0, 1, 3),
        0x2569 => (3, 0, 3, 3),
        0x256A => (3, 1, 3, 1),
        0x256B => (1, 3, 1, 3),
        0x256C => (3, 3, 3, 3),
        _ => (0, 0, 0, 0),
    }
}

/// Half and mixed-weight half lines (U+2574..U+257F).
fn box_segments_half(cp: u32) -> (r: (u8, u8, u8, u8))
    ensures
        r == spec_box_segments_half(cp),
{
    match cp {
        0x2574 => (0, 0, 1, 0),
        0x2575 => (0, 0, 0, 1),
        0x2576 => (1, 0, 0, 0),
        0x2577 => (0, 1, 0, 0),
        0x2578 => (0, 0, 2, 0),
        0x2579 => (0, 0, 0, 2),
        0x257A => (2, 0, 0, 0),
        0x257B => (0, 2, 0, 0),
        0x257C => (2, 0, 1, 0),
        0x257D => (0, 2, 0, 1),
        0x257E => (1, 0, 2, 0),
        0x257F => (0, 1, 0, 2),
        _ => (0, 0, 0, 0),
    }
}

/// Line thickness parameters for box drawing segments.
struct LineWidths {
    thin: usize,
    thick: usize,
}

/// Draw a horizontal arm spanning columns `x1 .. x2` around row `cy`.
fn draw_h_segment(
    alpha: &mut [u8],
    n: usize,
    w: usize,
    x1: usize,
    cy: usize,
    x2: usize,
    style: u8,
    widths: &LineWidths,
)
    requires
        n <= old(alpha)@.len(),
        x1 <= x2,
        w <= u32::MAX,
        cy <= u32::MAX / 2,
        widths.thin == 1,
        widths.thick == thick_width(w as int),
    ensures
        final(alpha)@.len() == old(alpha)@.len(),
        forall|j: int|
            0 <= j < old(alpha)@.len() ==> #[trigger] final(alpha)@[j] == if hseg_hit(
                n as int,
                w as int,
                x1 as int,
                x2 as int,
                cy as int,
                style,
                j,
            ) {
                255u8
            } else {
                old(alpha)@[j]
            },
{
    let len = x2 - x1;
    if style == 1 {
        paint_rows(alpha, n, w, cy, cy + widths.thin, x1, len);
    } else if style == 2 {
        let y_start = cy.saturating_sub(widths.thick / 2);
        paint_rows(alpha, n, w, y_start, y_start + widths.thick, x1, len);
    } else if style == 3 {
        let gap = if widths.thick > 2 { widths.thick } else { 2 };
        let top = cy.saturating_sub(gap / 2 + widths.thin);
        let bot = cy + gap / 2;
        paint_rows(alpha, n, w, top, top + widths.thin, x1, len);
        paint_rows(alpha, n, w, bot, bot + widths.thin, x1, len);
    }
}

/// Draw a vertical arm spanning rows `y1 .. y2` around column `cx`.
fn draw_v_segment(
    alpha: &mut [u8],
    n: usize,
    w: usize,
    cx: usize,
    y1: usize,
    y2: usize,
    style: u8,
    widths: &LineWidths,
)
    requires
        n <= old(alpha)@.len(),
        w <= u32::MAX,
        cx <= u32::MAX / 2,
        widths.thin == 1,
        widths.thick == thick_width(w as int),
    ensures
        final(alpha)@.len() == old(alpha)@.len(),
        forall|j: int|
            0 <= j < old(alpha)@.len() ==> #[trigger] final(alpha)@[j] == if vseg_hit(
                n as int,
                w as int,
                cx as int,
                y1 as int,
                y2 as int,
                style,
                j,
            ) {
                255u8
            } else {
                old(alpha)@[j]
            },
{
    if style == 1 {
        paint_rows(alpha, n, w, y1, y2, cx, widths.thin);
    } else if style == 2 {
        let x_start = cx.saturating_sub(widths.thick / 2);
        paint_rows(alpha, n, w, y1, y2, x_start, widths.thick);
    } else if style == 3 {
        let gap = if widths.thick > 2 { widths.thick } else { 2 };
        let left = cx.saturating_sub(gap / 2 + widths.thin);
        let right = cx + gap / 2;
        paint_rows(alpha, n, w, y1, y2, left, widths.thin);
        paint_rows(alpha, n, w, y1, y2, right, widths.thin);
    }
}

/// Draw box drawing characters U+2500–U+257F.
/// Uses segments from cell edges to center for composability.
fn draw_box_drawing(alpha: &mut [u8], cp: u32, w: usize, h: usize)
    requires
        w <= u32::MAX,
        h <= u32::MAX,
        w * h <= old(alpha)@.len(),
    ensures
        final(alpha)@.len() == old(alpha)@.len(),
        forall|j: int|
            0 <= j < old(alpha)@.len() ==> #[trigger] final(alpha)@[j] == if box_hit(
                cp,
                w as int,
                h as int,
                j,
            ) {
                255u8
            } else {
                old(alpha)@[j]
            },
{
    let total = alpha.len();
    let n: usize = w * h;
    let cx = w / 2;
    let cy = h / 2;
    let widths = LineWidths { thin: 1, thick: if w / 4 > 2 { w / 4 } else { 2 } };

    // (right, down, left, up) each can be: 0=none, 1=light, 2=heavy, 3=double
    let segments = box_segments(cp);
    if segments.0 == 0 && segments.1 == 0 && segments.2 == 0 && segments.3 == 0 {
        return;
    }
    let (right, down, left, up) = segments;

    // Right: from center to right edge
    draw_h_segment(alpha, n, w, cx, cy, w, right, &widths);
    // Left: from left edge to center
    draw_h_segment(alpha, n, w, 0, cy, cx + 1, left, &widths);
    // Down: from center to bottom edge
    draw_v_segment(alpha, n, w, cx, cy, h, down, &widths);
    // Up: from top to center
    draw_v_segment(alpha, n, w, cx, 0, cy + 1, up, &widths);
}


// ---------------------------------------------------------------------------
// Powerline
// ---------------------------------------------------------------------------

/// Row `r` of the powerline glyph `cp` covers `len` pixels from column
/// `start`: the pair `(start, len)`.
pub open spec fn powerline_row(cp: u32, w: int, h: int, r: int) -> (int, int) {
    let last = sat_sub(w, 1);
    let tw = tri_width(w, h, r);
    if cp == 0xE0B0 {
        (0, tw)
    } else if cp == 0xE0B1 {
        (if tw < last { tw } else { last }, 1)
    } else if cp == 0xE0B2 {
        (w - tw, tw)
    } else {
        let edge = if h > 1 { tw } else { 0 };
        (last - (if edge < last { edge } else { last }), 1)
    }
}

proof fn lemma_tri_width_bound(w: int, h: int, r: int)
    requires
        w >= 0,
        0 <= r < h,
    ensures
        0 <= tri_width(w, h, r) <= w,
{
    if h > 1 {
        let half = h / 2;
        if r <= half {
            assert(0 <= (r * w) / half <= w) by (nonlinear_arith)
                requires
                    0 <= r <= half,
                    half > 0,
                    w >= 0,
            ;
        } else {
            assert(0 <= ((h - 1 - r) * w) / half <= w) by (nonlinear_arith)
                requires
                    0 <= h - 1 - r <= half,
                    half > 0,
                    w >= 0,
            ;
        }
    }
}

/// Width of the triangle in row `y`.
fn tri_width_exec(w: usize, h: usize, y: usize) -> (r: usize)
    requires
        y < h,
        w * h <= usize::MAX,
    ensures
        r == tri_width(w as int, h as int, y as int),
        r <= w,
{
    proof {
        lemma_tri_width_bound(w as int, h as int, y as int);
        lemma_rows_before(y as int, h as int, w as int);
        lemma_rows_before((h - 1 - y) as int, h as int, w as int);
        vstd::arithmetic::mul::lemma_mul_is_commutative(h as int, w as int);
    }
    if h > 1 {
        let half = h / 2;
        if y <= half {
            (y * w) / half
        } else {
            ((h - 1 - y) * w) / half
        }
    } else {
        w
    }
}

/// Draw a powerline triangle U+E0B0..U+E0B3.
fn draw_powerline(alpha: &mut [u8], cp: u32, w: usize, h: usize)
    requires
        w > 0,
        w * h <= old(alpha)@.len(),
        0xE0B0 <= cp <= 0xE0B3,
    ensures
        final(alpha)@.len() == old(alpha)@.len(),
        forall|j: int|
            0 <= j < old(alpha)@.len() ==> #[trigger] final(alpha)@[j] == if j < w * h && powerline_pixel(
                cp,
                w as int,
                h as int,
                j % (w as int),
                j / (w as int),
            ) {
                255u8
            } else {
                old(alpha)@[j]
            },
{
    let ghost a0 = alpha@;
    let ghost wi = w as int;
    let n = alpha.len();
    let total: usize = w * h;
    let mut y: usize = 0;
    while y < h
        invariant
            n == a0.len(),
            alpha@.len() == a0.len(),
            a0 == old(alpha)@,
            w > 0,
            total == w * h,
            total <= n,
            0xE0B0 <= cp <= 0xE0B3,
            0 <= y <= h,
            wi == w,
            forall|j: int|
                0 <= j < a0.len() ==> #[trigger] alpha@[j] == if j < y * wi && powerline_pixel(
                    cp,
                    wi,
                    h as int,
                    j % wi,
                    j / wi,
                ) {
                    255u8
                } else {
                    a0[j]
                },
        decreases h - y,
    {
        proof {
            lemma_rows_before(y as int, h as int, wi);
            vstd::arithmetic::mul::lemma_mul_is_commutative(h as int, wi);
        }
        let base: usize = y * w;
        let tw = tri_width_exec(w, h, y);
        let last = w - 1;
        let (start, len): (usize, usize) = if cp == 0xE0B0 {
            (0, tw)
        } else if cp == 0xE0B1 {
            (if tw < last { tw } else { last }, 1)
        } else if cp == 0xE0B2 {
            (w - tw, tw)
        } else {
            let edge = if h > 1 { tw } else { 0 };
            (last - (if edge < last { edge } else { last }), 1)
        };
        assert((start as int, len as int) == powerline_row(cp, wi, h as int, y as int));
        assert(start + len <= w);
        let ghost prev = alpha@;
        paint_span(alpha, n, base + start, len);
        proof {
            assert forall|j: int| 0 <= j < a0.len() implies #[trigger] alpha@[j] == if j < (y + 1) * wi
                && powerline_pixel(cp, wi, h as int, j % wi, j / wi) {
                255u8
            } else {
                a0[j]
            } by {
                assert((y + 1) * wi == y * wi + wi) by (nonlinear_arith);
                lemma_pixel_of(j, wi);
                if y * wi <= j < y * wi + wi {
                    lemma_index_of(y as int, wi, j - y * wi);
                }
                if j < y * wi {
                    assert(j / wi < y) by (nonlinear_arith)
                        requires
                            j < y * wi,
                            j == (j / wi) * wi + j % wi,
                            0 <= j % wi,
                            wi > 0,
                    ;
                }
            }
        }
        y = y + 1;
    }
    proof {
        vstd::arithmetic::mul::lemma_mul_is_commutative(h as int, wi);
    }
}


// ---------------------------------------------------------------------------
// Laws
// ---------------------------------------------------------------------------

proof fn lemma_cell_pixel(i: int, w: int, h: int)
    requires
        w > 0,
        0 <= i < w * h,
    ensures
        0 <= i % w < w,
        0 <= i / w < h,
        i == (i / w) * w + i % w,
{
    lemma_pixel_of(i, w);
    assert(i / w < h) by (nonlinear_arith)
        requires
            i < w * h,
            i == (i / w) * w + i % w,
            0 <= i % w,
            w > 0,
    ;
}

/// The box-drawing character that is the left-right mirror image of `cp` (`cp` itself when it is symmetric).
pub open spec fn hmirror_cp(cp: u32) -> u32 {
    if cp == 0x250C { 0x2510 }
    else if cp == 0x2510 { 0x250C }
    else if cp == 0x250D { 0x2511 }
    else if cp == 0x2511 { 0x250D }
    else if cp == 0x250E { 0x2512 }
    else if cp == 0x2512 { 0x250E }
    else if cp == 0x250F { 0x2513 }
    else if cp == 0x2513 { 0x250F }
    else if cp == 0x2514 { 0x2518 }
    else if cp == 0x2518 { 0x2514 }
    else if cp == 0x2515 { 0x2519 }
    else if cp == 0x2519 { 0x2515 }
    else if cp == 0x2516 { 0x251A }
    else if cp == 0x251A { 0x2516 }
    else if cp == 0x2517 { 0x251B }
    else if cp == 0x251B { 0x2517 }
    else if cp == 0x251C { 0x2524 }
    else if cp == 0x2524 { 0x251C }
    else if cp == 0x251D { 0x2525 }
    else if cp == 0x2525 { 0x251D }
    else if cp == 0x251E { 0x2526 }
    else if cp == 0x2526 { 0x251E }
    else if cp == 0x251F { 0x2527 }
    else if cp == 0x2527 { 0x251F }
    else if cp == 0x2520 { 0x2528 }
    else if cp == 0x2528 { 0x2520 }
    else if cp == 0x2521 { 0x2529 }
    else if cp == 0x2529 { 0x2521 }
    else if cp == 0x2522 { 0x252A }
    else if cp == 0x252A { 0x2522 }
    else if cp == 0x2523 { 0x252B }
    else if cp == 0x252B { 0x2523 }
    else if cp == 0x252D { 0x252E }
    else if cp == 0x252E { 0x252D }
    else if cp == 0x2531 { 0x2532 }
    else if cp == 0x2532 { 0x2531 }
    else if cp == 0x2535 { 0x2536 }
    else if cp == 0x2536 { 0x2535 }
    else if cp == 0x2539 { 0x253A }
    else if cp == 0x253A { 0x2539 }
    else if cp == 0x253D { 0x253E }
    else if cp == 0x253E { 0x253D }
    else if cp == 0x2543 { 0x2544 }
    else if cp == 0x2544 { 0x2543 }
    else if cp == 0x2545 { 0x2546 }
    else if cp == 0x2546 { 0x2545 }
    else if cp == 0x2549 { 0x254A }
    else if cp == 0x254A { 0x2549 }
    else if cp == 0x2552 { 0x2555 }
    else if cp == 0x2555 { 0x2552 }
    else if cp == 0x2553 { 0x2556 }
    else if cp == 0x2556 { 0x2553 }
    else if cp == 0x2554 { 0x2557 }
    else if cp == 0x2557 { 0x2554 }
    else if cp == 0x2558 { 0x255B }
    else if cp == 0x255B { 0x2558 }
    else if cp == 0x2559 { 0x255C }
    else if cp == 0x255C { 0x2559 }
    else if cp == 0x255A { 0x255D }
    else if cp == 0x255D { 0x255A }
    else if cp == 0x255E { 0x2561 }
    else if cp == 0x2561 { 0x255E }
    else if cp == 0x255F { 0x2562 }
    else if cp == 0x2562 { 0x255F }
    else if cp == 0x2560 { 0x2563 }
    else if cp == 0x2563 { 0x2560 }
    else if cp == 0x256D { 0x256E }
    else if cp == 0x256E { 0x256D }
    else if cp == 0x256F { 0x2570 }
    else if cp == 0x2570 { 0x256F }
    else if cp == 0x2571 { 0x2572 }
    else if cp == 0x2572 { 0x2571 }
    else if cp == 0x2574 { 0x2576 }
    else if cp == 0x2576 { 0x2574 }
    else if cp == 0x2578 { 0x257A }
    else if cp == 0x257A { 0x2578 }
    else if cp == 0x257C { 0x257E }
    else if cp == 0x257E { 0x257C }
    else { cp }
}

/// The box-drawing character that is the top-bottom mirror image of `cp` (`cp` itself when it is symmetric).
pub open spec fn vmirror_cp(cp: u32) -> u32 {
    if cp == 0x250C { 0x2514 }
    else if cp == 0x2514 { 0x250C }
    else if cp == 0x250D { 0x2515 }
    else if cp == 0x2515 { 0x250D }
    else if cp == 0x250E { 0x2516 }
    else if cp == 0x2516 { 0x250E }
    else if cp == 0x250F { 0x2517 }
    else if cp == 0x2517 { 0x250F }
    else if cp == 0x2510 { 0x2518 }
    else if cp == 0x2518 { 0x2510 }
    else if cp == 0x2511 { 0x2519 }
    else if cp == 0x2519 { 0x2511 }
    else if cp == 0x2512 { 0x251A }
    else if cp == 0x251A { 0x2512 }
    else if cp == 0x2513 { 0x251B }
    else if cp == 0x251B { 0x2513 }
    else if cp == 0x251E { 0x251F }
    else if cp == 0x251F { 0x251E }
    else if cp == 0x2521 { 0x2522 }
    else if cp == 0x2522 { 0x2521 }
    else if cp == 0x2526 { 0x2527 }
    else if cp == 0x2527 { 0x2526 }
    else if cp == 0x2529 { 0x252A }
    else if cp == 0x252A { 0x2529 }
    else if cp == 0x252C { 0x2534 }
    else if cp == 0x2534 { 0x252C }
    else if cp == 0x252D { 0x2535 }
    else if cp == 0x2535 { 0x252D }
    else if cp == 0x252E { 0x2536 }
    else if cp == 0x2536 { 0x252E }
    else if cp == 0x252F { 0x2537 }
    else if cp == 0x2537 { 0x252F }
    else if cp == 0x2530 { 0x2538 }
    else if cp == 0x2538 { 0x2530 }
    else if cp == 0x2531 { 0x2539 }
    else if cp == 0x2539 { 0x2531 }
    else if cp == 0x2532 { 0x253A }
    else if cp == 0x253A { 0x2532 }
    else if cp == 0x2533 { 0x253B }
    else if cp == 0x253B { 0x2533 }
    else if cp == 0x2540 { 0x2541 }
    else if cp == 0x2541 { 0x2540 }
    else if cp == 0x2543 { 0x2545 }
    else if cp == 0x2545 { 0x2543 }
    else if cp == 0x2544 { 0x2546 }
    else if cp == 0x2546 { 0x2544 }
    else if cp == 0x2547 { 0x2548 }
    else if cp == 0x2548 { 0x2547 }
    else if cp == 0x2552 { 0x2558 }
    else if cp == 0x2558 { 0x2552 }
    else if cp == 0x2553 { 0x2559 }
    else if cp == 0x2559 { 0x2553 }
    else if cp == 0x2554 { 0x255A }
    else if cp == 0x255A { 0x2554 }
    else if cp == 0x2555 { 0x255B }
    else if cp == 0x255B { 0x2555 }
    else if cp == 0x2556 { 0x255C }
    else if cp == 0x255C { 0x2556 }
    else if cp == 0x2557 { 0x255D }
    else if cp == 0x255D { 0x2557 }
    else if cp == 0x2564 { 0x2567 }
    else if cp == 0x2567 { 0x2564 }
    else if cp == 0x2565 { 0x2568 }
    else if cp == 0x2568 { 0x2565 }
    else if cp == 0x2566 { 0x2569 }
    else if cp == 0x2569 { 0x2566 }
    else if cp == 0x256D { 0x2570 }
    else if cp == 0x2570 { 0x256D }
    else if cp == 0x256E { 0x256F }
    else if cp == 0x256F { 0x256E }
    else if cp == 0x2571 { 0x2572 }
    else if cp == 0x2572 { 0x2571 }
    else if cp == 0x2575 { 0x2577 }
    else if cp == 0x2577 { 0x2575 }
    else if cp == 0x2579 { 0x257B }
    else if cp == 0x257B { 0x2579 }
    else if cp == 0x257D { 0x257F }
    else if cp == 0x257F { 0x257D }
    else { cp }
}

/// Box-drawing arms follow the shapes of the characters: the left-right
/// mirror image of a character (├ and ┤, ┌ and ┐, ╞ and ╡, ...) has its
/// right and left arms swapped, and the top-bottom mirror image (┌ and └,
/// ┬ and ┴, ╀ and ╁, ...) has its up and down arms swapped; the other arms
/// are the same.
pub proof fn law_box_segments_mirror(cp: u32)
    requires
        0x2500 <= cp <= 0x257F,
    ensures
        ({
            let a = spec_box_segments(cp);
            let m = spec_box_segments(hmirror_cp(cp));
            m == (a.2, a.1, a.0, a.3)
        }),
        ({
            let a = spec_box_segments(cp);
            let m = spec_box_segments(vmirror_cp(cp));
            m == (a.0, a.3, a.2, a.1)
        }),
{
    if cp == 0x2500 {
    } else if cp == 0x2501 {
    } else if cp == 0x2502 {
    } else if cp == 0x2503 {
    } else if cp == 0x2504 {
    } else if cp == 0x2505 {
    } else if cp == 0x2506 {
    } else if cp == 0x2507 {
    } else if cp == 0x2508 {
    } else if cp == 0x2509 {
    } else if cp == 0x250A {
    } else if cp == 0x250B {
    } else if cp == 0x250C {
    } else if cp == 0x250D {
    } else if cp == 0x250E {
    } else if cp == 0x250F {
    } else if cp == 0x2510 {
    } else if cp == 0x2511 {
    } else if cp == 0x2512 {
    } else if cp == 0x2513 {
    } else if cp == 0x2514 {
    } else if cp == 0x2515 {
    } else if cp == 0x2516 {
    } else if cp == 0x2517 {
    } else if cp == 0x2518 {
    } else if cp == 0x2519 {
    } else if cp == 0x251A {
    } else if cp == 0x251B {
    } else if cp == 0x251C {
    } else if cp == 0x251D {
    } else if cp == 0x251E {
    } else if cp == 0x251F {
    } else if cp == 0x2520 {
    } else if cp == 0x2521 {
    } else if cp == 0x2522 {
    } else if cp == 0x2523 {
    } else if cp == 0x2524 {
    } else if cp == 0x2525 {
    } else if cp == 0x2526 {
    } else if cp == 0x2527 {
    } else if cp == 0x2528 {
    } else if cp == 0x2529 {
    } else if cp == 0x252A {
    } else if cp == 0x252B {
    } else if cp == 0x252C {
    } else if cp == 0x252D {
    } else if cp == 0x252E {
    } else if cp == 0x252F {
    } else if cp == 0x2530 {
    } else if cp == 0x2531 {
    } else if cp == 0x2532 {
    } else if cp == 0x2533 {
    } else if cp == 0x2534 {
    } else if cp == 0x2535 {
    } else if cp == 0x2536 {
    } else if cp == 0x2537 {
    } else if cp == 0x2538 {
    } else if cp == 0x2539 {
    } else if cp == 0x253A {
    } else if cp == 0x253B {
    } else if cp == 0x253C {
    } else if cp == 0x253D {
    } else if cp == 0x253E {
    } else if cp == 0x253F {
    } else if cp == 0x2540 {
    } else if cp == 0x2541 {
    } else if cp == 0x2542 {
    } else if cp == 0x2543 {
    } else if cp == 0x2544 {
    } else if cp == 0x2545 {
    } else if cp == 0x2546 {
    } else if cp == 0x2547 {
    } else if cp == 0x2548 {
    } else if cp == 0x2549 {
    } else if cp == 0x254A {
    } else if cp == 0x254B {
    } else if cp == 0x254C {
    } else if cp == 0x254D {
    } else if cp == 0x254E {
    } else if cp == 0x254F {
    } else if cp == 0x2550 {
    } else if cp == 0x2551 {
    } else if cp == 0x2552 {
    } else if cp == 0x2553 {
    } else if cp == 0x2554 {
    } else if cp == 0x2555 {
    } else if cp == 0x2556 {
    } else if cp == 0x2557 {
    } else if cp == 0x2558 {
    } else if cp == 0x2559 {
    } else if cp == 0x255A {
    } else if cp == 0x255B {
    } else if cp == 0x255C {
    } else if cp == 0x255D {
    } else if cp == 0x255E {
    } else if cp == 0x255F {
    } else if cp == 0x2560 {
    } else if cp == 0x2561 {
    } else if cp == 0x2562 {
    } else if cp == 0x2563 {
    } else if cp == 0x2564 {
    } else if cp == 0x2565 {
    } else if cp == 0x2566 {
    } else if cp == 0x2567 {
    } else if cp == 0x2568 {
    } else if cp == 0x2569 {
    } else if cp == 0x256A {
    } else if cp == 0x256B {
    } else if cp == 0x256C {
    } else if cp == 0x256D {
    } else if cp == 0x256E {
    } else if cp == 0x256F {
    } else if cp == 0x2570 {
    } else if cp == 0x2571 {
    } else if cp == 0x2572 {
    } else if cp == 0x2573 {
    } else if cp == 0x2574 {
    } else if cp == 0x2575 {
    } else if cp == 0x2576 {
    } else if cp == 0x2577 {
    } else if cp == 0x2578 {
    } else if cp == 0x2579 {
    } else if cp == 0x257A {
    } else if cp == 0x257B {
    } else if cp == 0x257C {
    } else if cp == 0x257D {
    } else if cp == 0x257E {
    } else if cp == 0x257F {
    }
}

/// The upper half block and the lower half block split every cell: each
/// pixel is covered by exactly one of them.
pub proof fn law_half_blocks_partition_cell(w: int, h: int, i: int)
    requires
        w > 0,
        h > 0,
        0 <= i < w * h,
    ensures
        glyph_hit(0x2580, w, h, i) != glyph_hit(0x2584, w, h, i),
        glyph_alpha(0x2580, w, h)[i] as int + glyph_alpha(0x2584, w, h)[i] as int == 255,
{
    lemma_cell_pixel(i, w, h);
}

/// The left half block and the right half block split every cell.
pub proof fn law_left_right_halves_partition_cell(w: int, h: int, i: int)
    requires
        w > 0,
        h > 0,
        0 <= i < w * h,
    ensures
        glyph_hit(0x258C, w, h, i) != glyph_hit(0x2590, w, h, i),
{
    lemma_cell_pixel(i, w, h);
}

/// The light shade and the dark shade are complementary dither patterns.
pub proof fn law_light_dark_shades_complementary(w: int, h: int, i: int)
    requires
        w > 0,
        h > 0,
        0 <= i < w * h,
    ensures
        glyph_hit(0x2591, w, h, i) != glyph_hit(0x2593, w, h, i),
{
    lemma_cell_pixel(i, w, h);
}

/// The full block covers every pixel of the cell.
pub proof fn law_full_block_covers_cell(w: int, h: int, i: int)
    requires
        w > 0,
        h > 0,
        0 <= i < w * h,
    ensures
        glyph_hit(0x2588, w, h, i),
{
    lemma_cell_pixel(i, w, h);
}

/// The solid left-pointing powerline triangle is the mirror image of the
/// solid right-pointing one: pixel `(c, r)` of one is pixel `(w - 1 - c, r)`
/// of the other.
pub proof fn law_powerline_solid_mirror(w: int, h: int, r: int, c: int)
    requires
        w > 0,
        h > 0,
        0 <= r < h,
        0 <= c < w,
    ensures
        glyph_hit(0xE0B0, w, h, r * w + c) == glyph_hit(0xE0B2, w, h, r * w + (w - 1 - c)),
        glyph_alpha(0xE0B0, w, h)[r * w + c] == glyph_alpha(0xE0B2, w, h)[r * w + (w - 1 - c)],
{
    lemma_index_of(r, w, c);
    lemma_index_of(r, w, w - 1 - c);
    lemma_rows_before(r, h, w);
    vstd::arithmetic::mul::lemma_mul_is_commutative(h, w);
}

} // verus!
