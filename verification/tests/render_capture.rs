//! Whole-frame rendering scenarios. The emulator is stood in for by a small
//! screen model that understands the few control sequences these scenarios
//! send (text, CR/LF, cursor position, SGR colours and attributes, cursor
//! shape and blinking); the font by a glyph of 4x8 opaque pixels per
//! visible character.

use horseshoe::font::GlyphImage;
use horseshoe::renderer::frame::{render_frame, RenderOptions, DIRTY_FULL, DIRTY_NONE, DIRTY_PARTIAL};
use horseshoe::renderer::RenderTarget;
use horseshoe::terminal::render::{
    CursorState, CursorStyle, PaletteIndex, RenderColors, Style, StyleColor, Underline,
};
use horseshoe::terminal::state::{CellContent, CellWide, RawCell, RenderState};

const CELL_W: u32 = 8;
const CELL_H: u32 = 16;

fn plain_style() -> Style {
    Style {
        fg_color: StyleColor::Unset,
        bg_color: StyleColor::Unset,
        underline_color: StyleColor::Unset,
        bold: false,
        italic: false,
        faint: false,
        blink: false,
        inverse: false,
        invisible: false,
        strikethrough: false,
        overline: false,
        underline: Underline::Off,
    }
}

fn blank() -> RawCell {
    RawCell { graphemes: vec![], wide: CellWide::Narrow, style: plain_style(), content: CellContent::Codepoints }
}

fn is_wide(c: char) -> bool {
    (c as u32) >= 0x2E80 && !(0xE000..0xF900).contains(&(c as u32))
}

fn joins_previous(c: char) -> bool {
    matches!(c as u32, 0x0300..=0x036F | 0x200D | 0xFE0F)
}

fn palette() -> [(u8, u8, u8); 256] {
    let mut p = [(0u8, 0u8, 0u8); 256];
    let base = [
        (0, 0, 0),
        (205, 0, 0),
        (0, 205, 0),
        (205, 205, 0),
        (0, 0, 238),
        (205, 0, 205),
        (0, 205, 205),
        (229, 229, 229),
    ];
    for (i, c) in base.iter().enumerate() {
        p[i] = *c;
        p[i + 8] = *c;
    }
    p
}

struct Capture {
    state: RenderState,
    buf: Vec<u8>,
    retained: Vec<u8>,
    width: u32,
    height: u32,
    stride: u32,
    cols: u16,
    rows: u16,
    style: Style,
    after_zwj: bool,
}

impl Capture {
    fn new(cols: u16, rows: u16) -> Self {
        let width = u32::from(cols) * CELL_W;
        let height = u32::from(rows) * CELL_H;
        let stride = width * 4;
        let colors = RenderColors { foreground: (255, 255, 255), background: (0, 0, 0), cursor: None, palette: palette() };
        let cursor = CursorState { visible: true, in_viewport: true, x: 0, y: 0, style: CursorStyle::Block, blinking: false };
        let state = RenderState {
            cols,
            rows,
            dirty: DIRTY_FULL,
            row_dirty: vec![true; rows as usize],
            cells: vec![vec![blank(); cols as usize]; rows as usize],
            cursor,
            colors,
        };
        Capture {
            state,
            buf: vec![0u8; (stride * height) as usize],
            retained: Vec::new(),
            width,
            height,
            stride,
            cols,
            rows,
            style: plain_style(),
            after_zwj: false,
        }
    }

    fn mark(&mut self, row: usize) {
        self.state.row_dirty[row] = true;
        if self.state.dirty == DIRTY_NONE {
            self.state.dirty = DIRTY_PARTIAL;
        }
    }

    fn sgr(&mut self, params: &[u32]) {
        let mut i = 0;
        while i < params.len() {
            match params[i] {
                0 => self.style = plain_style(),
                4 => self.style.underline = Underline::Single,
                7 => self.style.inverse = true,
                9 => self.style.strikethrough = true,
                53 => self.style.overline = true,
                30..=37 => self.style.fg_color = StyleColor::Palette(PaletteIndex((params[i] - 30) as u8)),
                48 if params.get(i + 1) == Some(&5) => {
                    self.style.bg_color = StyleColor::Palette(PaletteIndex(params[i + 2] as u8));
                    i += 2;
                },
                _ => {},
            }
            i += 1;
        }
    }

    fn csi(&mut self, private: bool, params: &[u32], inter: Option<char>, fin: char) {
        match (private, inter, fin) {
            (false, None, 'm') => self.sgr(params),
            (false, None, 'H') => {
                let r = params.first().copied().unwrap_or(1).max(1) - 1;
                let c = params.get(1).copied().unwrap_or(1).max(1) - 1;
                let old = self.state.cursor.y as usize;
                self.mark(old);
                self.state.cursor.y = r.min(u32::from(self.rows) - 1) as u16;
                self.state.cursor.x = c.min(u32::from(self.cols) - 1) as u16;
                let new = self.state.cursor.y as usize;
                self.mark(new);
            },
            (false, Some(' '), 'q') => {
                let p = params.first().copied().unwrap_or(0);
                self.state.cursor.style = match p {
                    3 | 4 => CursorStyle::Underline,
                    5 | 6 => CursorStyle::Bar,
                    _ => CursorStyle::Block,
                };
                self.state.cursor.blinking = p % 2 == 1;
            },
            (true, None, 'h') if params == [12] => self.state.cursor.blinking = true,
            _ => {},
        }
    }

    fn put(&mut self, c: char) {
        let row = self.state.cursor.y as usize;
        let col = self.state.cursor.x as usize;
        if joins_previous(c) || self.after_zwj {
            self.after_zwj = c as u32 == 0x200D;
            let mut back = col.saturating_sub(1);
            if back > 0 && self.state.cells[row][back].wide == CellWide::SpacerTail {
                back -= 1;
            }
            self.state.cells[row][back].graphemes.push(c as u32);
            self.mark(row);
            return;
        }
        let wide = is_wide(c);
        let cell = RawCell {
            graphemes: vec![c as u32],
            wide: if wide { CellWide::Wide } else { CellWide::Narrow },
            style: self.style,
            content: CellContent::Codepoints,
        };
        self.state.cells[row][col] = cell;
        let mut next = col + 1;
        if wide && next < self.cols as usize {
            self.state.cells[row][next] = RawCell { wide: CellWide::SpacerTail, ..blank() };
            next += 1;
        }
        self.state.cursor.x = next.min(self.cols as usize - 1) as u16;
        self.mark(row);
    }

    fn write_vt(&mut self, data: &[u8]) {
        let text = String::from_utf8_lossy(data).into_owned();
        let mut it = text.chars().peekable();
        while let Some(c) = it.next() {
            match c {
                '\r' => self.state.cursor.x = 0,
                '\n' => {
                    let row = self.state.cursor.y as usize;
                    self.mark(row);
                    self.state.cursor.y = (self.state.cursor.y + 1).min(self.rows - 1);
                    let row = self.state.cursor.y as usize;
                    self.mark(row);
                },
                '\x1b' => {
                    if it.next() != Some('[') {
                        continue;
                    }
                    let private = it.peek() == Some(&'?');
                    if private {
                        it.next();
                    }
                    let mut params: Vec<u32> = Vec::new();
                    let mut cur: Option<u32> = None;
                    let mut inter = None;
                    for d in it.by_ref() {
                        if let Some(v) = d.to_digit(10) {
                            cur = Some(cur.unwrap_or(0) * 10 + v);
                        } else if d == ';' {
                            params.push(cur.take().unwrap_or(0));
                        } else if d == ' ' {
                            inter = Some(' ');
                        } else {
                            if let Some(v) = cur.take() {
                                params.push(v);
                            }
                            self.csi(private, &params, inter, d);
                            break;
                        }
                    }
                },
                _ => self.put(c),
            }
        }
    }

    fn glyphs(&self) -> Vec<Vec<Option<GlyphImage>>> {
        self.state
            .cells
            .iter()
            .map(|row| {
                row.iter()
                    .map(|cell| match cell.graphemes.first() {
                        Some(&cp) if cp != 0x20 && cell.wide != CellWide::SpacerTail => Some(GlyphImage {
                            width: 4,
                            height: 8,
                            left: 2,
                            top: (CELL_H * 4 / 5) as i32 - 2,
                            alpha: vec![255; 32],
                        }),
                        _ => None,
                    })
                    .collect()
            })
            .collect()
    }

    fn render_opts(&mut self, selection: Option<((u16, u16), (u16, u16))>, cursor_blink_visible: bool) {
        let glyphs = self.glyphs();
        let opts = RenderOptions {
            bold_is_bright: true,
            cursor_blink_visible,
            selection,
            padding: 0,
            background_alpha: 255,
            search_highlights: &[],
            selection_fg: None,
            selection_bg: None,
            scrollbar_thumb: None,
            preedit: None,
            preedit_glyphs: &[],
            search_bar: None,
            search_cursor: 0,
            search_bar_glyphs: &[],
        };
        let colors = self.state.colors;
        let mut target = RenderTarget {
            buf: &mut self.buf,
            width: self.width,
            height: self.height,
            stride: self.stride,
            retained: &mut self.retained,
        };
        render_frame(&mut target, &mut self.state, CELL_W, CELL_H, &glyphs, &opts, &colors);
        self.state.dirty = DIRTY_NONE;
    }

    fn render(&mut self) {
        self.render_opts(None, true);
    }

    fn render_with_selection(&mut self, sel: ((u16, u16), (u16, u16))) {
        self.render_opts(Some(sel), true);
    }

    fn render_with_blink(&mut self, visible: bool) {
        self.render_opts(None, visible);
    }

    fn pixel_at(&self, px: u32, py: u32) -> (u8, u8, u8, u8) {
        let o = (py * self.stride + px * 4) as usize;
        (self.buf[o + 2], self.buf[o + 1], self.buf[o], self.buf[o + 3])
    }

    fn cell_origin(&self, col: u16, row: u16) -> (u32, u32) {
        (u32::from(col) * CELL_W, u32::from(row) * CELL_H)
    }

    fn cell_has_nonbg_pixels(&self, col: u16, row: u16) -> bool {
        let (ox, oy) = self.cell_origin(col, row);
        let bg = self.pixel_at(ox, oy);
        for dy in 0..CELL_H {
            for dx in 0..CELL_W {
                if self.pixel_at(ox + dx, oy + dy) != bg {
                    return true;
                }
            }
        }
        false
    }

    fn retained_snapshot(&self) -> Vec<u8> {
        self.retained.clone()
    }
}

#[test]
fn test_overlay_cleanup_on_rerender() {
    let mut cap = Capture::new(80, 24);
    cap.write_vt(b"Hello");
    cap.render_with_selection(((0, 0), (4, 0)));
    let (ox, oy) = cap.cell_origin(2, 0);
    let with_sel = cap.pixel_at(ox + 1, oy + 1);
    cap.render();
    let without_sel = cap.pixel_at(ox + 1, oy + 1);
    cap.render();
    let stable = cap.pixel_at(ox + 1, oy + 1);
    assert_ne!(with_sel, without_sel, "removing selection should change pixels");
    assert_eq!(without_sel, stable, "stable frames should be identical");
}

#[test]
fn test_retained_not_polluted_by_overlays() {
    let mut cap = Capture::new(80, 24);
    cap.write_vt(b"content");
    cap.render();
    let retained1 = cap.retained_snapshot();
    cap.render_with_selection(((0, 0), (6, 0)));
    let retained2 = cap.retained_snapshot();
    assert_eq!(retained1, retained2, "overlays must not pollute retained buffer");
}

#[test]
fn test_render_capture_blank() {
    let mut cap = Capture::new(80, 24);
    cap.render();
    assert!(!cap.buf.is_empty());
    assert_eq!(cap.buf[3], 0xFF);
}

#[test]
fn test_render_capture_text_pixels() {
    let mut cap = Capture::new(80, 24);
    cap.write_vt(b"X");
    cap.render();
    assert!(cap.cell_has_nonbg_pixels(0, 0), "cell with 'X' should have non-bg pixels");
}

#[test]
fn test_render_capture_cursor_at_origin() {
    let mut cap = Capture::new(80, 24);
    cap.render();
    let (ox0, oy0) = cap.cell_origin(0, 0);
    let (ox1, oy1) = cap.cell_origin(5, 5);
    let px_cursor = cap.pixel_at(ox0 + 1, oy0 + 1);
    let px_empty = cap.pixel_at(ox1 + 1, oy1 + 1);
    assert_ne!(px_cursor, px_empty, "cursor cell should differ from empty cell");
}

#[test]
fn test_render_capture_multiple_frames() {
    let mut cap = Capture::new(80, 24);
    cap.render();
    cap.write_vt(b"Hello");
    cap.render();
    assert_eq!(cap.buf[3], 0xFF);
}

#[test]
fn test_render_capture_with_selection() {
    let mut cap = Capture::new(80, 24);
    cap.write_vt(b"Hello World");
    cap.render();
    let (ox, oy) = cap.cell_origin(0, 0);
    let before = cap.pixel_at(ox + 1, oy + 1);
    cap.render_with_selection(((0, 0), (4, 0)));
    let after = cap.pixel_at(ox + 1, oy + 1);
    assert_ne!(before, after, "selection overlay should change pixels");
}

#[test]
fn test_render_colored_prompt() {
    let mut cap = Capture::new(80, 24);
    cap.write_vt(b"\x1b[32muser@host\x1b[0m:\x1b[34m~/projects\x1b[0m$ echo hello\r\n");
    cap.write_vt(b"hello\r\n");
    cap.write_vt(b"\x1b[32muser@host\x1b[0m:\x1b[34m~/projects\x1b[0m$ ");
    cap.render();
    assert!(cap.cell_has_nonbg_pixels(0, 0), "first char should have text");
    assert!(cap.cell_has_nonbg_pixels(1, 0), "second char should have text");
    assert!(cap.cell_has_nonbg_pixels(0, 1), "hello line should have text");
}

#[test]
fn test_render_frame_full_dirty() {
    let mut cap = Capture::new(80, 24);
    cap.write_vt(b"Hello");
    cap.render();
    assert!(cap.cell_has_nonbg_pixels(0, 0), "cell (0,0) should have non-bg pixels after writing 'Hello'");
}

#[test]
fn test_render_frame_partial_dirty() {
    let mut cap = Capture::new(80, 24);
    cap.write_vt(b"ABCDE");
    cap.render();
    assert!(cap.cell_has_nonbg_pixels(0, 0), "first render should show 'A'");
    cap.write_vt(b"X");
    cap.render();
    assert!(cap.cell_has_nonbg_pixels(5, 0), "partial render should show 'X' at col 5");
}

#[test]
fn test_render_frame_not_dirty() {
    let mut cap = Capture::new(80, 24);
    cap.write_vt(b"Test");
    cap.render();
    let first_pixel = cap.pixel_at(0, 0);
    cap.render();
    let second_pixel = cap.pixel_at(0, 0);
    assert_eq!(first_pixel, second_pixel, "render without changes should produce identical output");
}

#[test]
fn test_render_frame_retained_buffer_copied() {
    let mut cap = Capture::new(80, 24);
    cap.write_vt(b"ABCDE");
    cap.render();
    assert!(cap.cell_has_nonbg_pixels(0, 0), "'A' should be visible");
    assert!(cap.cell_has_nonbg_pixels(4, 0), "'E' should be visible");
    cap.write_vt(b"\x1b[3;1H");
    cap.write_vt(b"Z");
    cap.render();
    assert!(cap.cell_has_nonbg_pixels(0, 0), "retained buffer should preserve 'A' on row 0 after partial render");
    assert!(cap.cell_has_nonbg_pixels(4, 0), "retained buffer should preserve 'E' on row 0 after partial render");
    assert!(cap.cell_has_nonbg_pixels(0, 2), "'Z' should be visible at (0,2)");
}

#[test]
fn test_render_frame_selection_overlay() {
    let mut cap = Capture::new(80, 24);
    cap.write_vt(b"Hello World ABCDEF");
    cap.render();
    let (ox, oy) = cap.cell_origin(2, 0);
    let before = cap.pixel_at(ox + 1, oy + 1);
    cap.render_with_selection(((0, 0), (5, 0)));
    let after = cap.pixel_at(ox + 1, oy + 1);
    assert_ne!(before, after, "selected cell should have different pixels than unselected");
    let (unsel_x, unsel_y) = cap.cell_origin(10, 0);
    let outside_sel = cap.pixel_at(unsel_x + 1, unsel_y + 1);
    cap.render();
    let outside_ref = cap.pixel_at(unsel_x + 1, unsel_y + 1);
    assert_eq!(outside_sel, outside_ref, "cell outside selection should be unchanged");
}

#[test]
fn test_render_frame_cursor_visible() {
    let mut cap = Capture::new(80, 24);
    cap.render();
    let (ox, oy) = cap.cell_origin(0, 0);
    let cursor_px = cap.pixel_at(ox + 1, oy + 1);
    let (ex, ey) = cap.cell_origin(40, 12);
    let empty_px = cap.pixel_at(ex + 1, ey + 1);
    assert_ne!(cursor_px, empty_px, "cursor at (0,0) should produce non-background pixels");
}

#[test]
fn test_render_frame_wide_char() {
    let mut cap = Capture::new(80, 24);
    cap.write_vt("\u{4e2d}".as_bytes());
    cap.render();
    assert!(cap.cell_has_nonbg_pixels(0, 0), "wide character cell (0,0) should have non-bg pixels");
}

#[test]
fn test_draw_glyph_renders_pixels() {
    let mut cap = Capture::new(80, 24);
    cap.write_vt(b"A");
    cap.render();
    assert!(cap.cell_has_nonbg_pixels(0, 0), "'A' glyph should render non-background pixels at cell (0,0)");
    assert!(!cap.cell_has_nonbg_pixels(79, 23), "empty cell should have only background pixels");
}

#[test]
fn test_render_capture_cursor_blink_toggle() {
    let mut cap = Capture::new(80, 24);
    cap.write_vt(b"\x1b[?12h");
    cap.render_with_blink(true);
    let (ox, oy) = cap.cell_origin(0, 0);
    let px_on = cap.pixel_at(ox + 1, oy + 1);
    cap.render_with_blink(false);
    let px_off = cap.pixel_at(ox + 1, oy + 1);
    assert_ne!(px_on, px_off, "cursor pixels should differ between blink on ({px_on:?}) and blink off ({px_off:?})");
}

#[test]
fn test_draw_cell_text_box_drawing_path() {
    let mut cap = Capture::new(80, 24);
    cap.write_vt("─".as_bytes());
    cap.render();
    assert!(cap.cell_has_nonbg_pixels(0, 0), "box-drawing char should produce visible pixels");
}

#[test]
fn test_draw_cells_explicit_bg_color() {
    let mut cap = Capture::new(80, 24);
    cap.write_vt(b"\x1b[48;5;1mX\x1b[0m");
    cap.render();
    assert!(cap.cell_has_nonbg_pixels(0, 0), "cell with explicit bg should have non-bg pixels");
}

#[test]
fn test_draw_cells_inverse_attribute() {
    let mut cap = Capture::new(80, 24);
    cap.write_vt(b"\x1b[7mINV\x1b[0m");
    cap.render();
    assert!(cap.cell_has_nonbg_pixels(0, 0), "inverse cell should have non-bg pixels");
}

#[test]
fn test_draw_cells_underline_attribute() {
    let mut cap = Capture::new(80, 24);
    cap.write_vt(b"\x1b[4mUL\x1b[0m");
    cap.render();
    assert!(cap.cell_has_nonbg_pixels(0, 0), "underlined cell should have non-bg pixels");
}

#[test]
fn test_draw_cells_strikethrough_attribute() {
    let mut cap = Capture::new(80, 24);
    cap.write_vt(b"\x1b[9mST\x1b[0m");
    cap.render();
    assert!(cap.cell_has_nonbg_pixels(0, 0), "strikethrough cell should have non-bg pixels");
}

#[test]
fn test_draw_cells_overline_attribute() {
    let mut cap = Capture::new(80, 24);
    cap.write_vt(b"\x1b[53mOL\x1b[0m");
    cap.render();
    assert!(cap.cell_has_nonbg_pixels(0, 0), "overline cell should have non-bg pixels");
}

#[test]
fn test_draw_cell_text_multi_codepoint() {
    let mut cap = Capture::new(80, 24);
    cap.write_vt("e\u{0301}".as_bytes());
    cap.render();
    assert!(cap.cell_has_nonbg_pixels(0, 0), "multi-codepoint cell should produce visible pixels");
}

#[test]
fn test_draw_cell_text_emoji_multi_codepoint() {
    let mut cap = Capture::new(80, 24);
    cap.write_vt("\u{1F468}\u{200D}\u{1F469}".as_bytes());
    cap.render();
    assert!(cap.cell_has_nonbg_pixels(0, 0), "emoji sequence should produce visible pixels");
}

#[test]
fn test_draw_selection_multi_row() {
    let mut cap = Capture::new(80, 24);
    cap.write_vt(b"Line one content\r\nLine two content\r\nLine three content");
    cap.render();
    let (mid_x, mid_y) = cap.cell_origin(5, 1);
    let baseline = cap.pixel_at(mid_x + 1, mid_y + 1);
    cap.render_with_selection(((3, 0), (5, 2)));
    let selected = cap.pixel_at(mid_x + 1, mid_y + 1);
    assert_ne!(baseline, selected, "middle row of multi-row selection should change pixels");
}

#[test]
fn test_draw_cursor_bar_style() {
    let mut cap = Capture::new(80, 24);
    cap.write_vt(b"\x1b[6 q");
    cap.render();
    let (ox, oy) = cap.cell_origin(0, 0);
    let cursor_px = cap.pixel_at(ox, oy + 1);
    let bg_origin = cap.cell_origin(40, 12);
    let nocursor_px = cap.pixel_at(bg_origin.0, bg_origin.1 + 1);
    assert_ne!(cursor_px, nocursor_px, "bar cursor should produce non-background pixels");
}

#[test]
fn test_draw_cursor_underline_style() {
    let mut cap = Capture::new(80, 24);
    cap.write_vt(b"\x1b[4 q");
    cap.render();
    let (ox, oy) = cap.cell_origin(0, 0);
    let ch = CELL_H;
    let cursor_px = cap.pixel_at(ox + 1, oy + ch - 1);
    let bg_origin = cap.cell_origin(40, 12);
    let nocursor_px = cap.pixel_at(bg_origin.0 + 1, bg_origin.1 + CELL_H - 1);
    assert_ne!(cursor_px, nocursor_px, "underline cursor should produce non-background pixels at bottom");
}
