use horseshoe::font::GlyphImage;
use horseshoe::renderer::background::{clear_background_alpha, clear_dirty_rows_alpha};
use horseshoe::renderer::cell_style::draw_cell_decorations;
use horseshoe::renderer::cells::{draw_cell, draw_cell_text};
use horseshoe::renderer::cursor::draw_cursor;
use horseshoe::renderer::overlay::draw_selection;
use horseshoe::renderer::{GridMetrics, Rect, SelectionRange, Surface};
use horseshoe::terminal::render::{
    default_cell_style, CellStyleAttrs, CursorState, CursorStyle, RenderColors, STYLE_COLOR_RGB,
};

fn colors() -> RenderColors {
    RenderColors { foreground: (255, 255, 255), background: (0, 0, 0), cursor: None, palette: [(0, 0, 0); 256] }
}

fn px(buf: &[u8], stride: u32, x: u32, y: u32) -> [u8; 4] {
    let o = (y * stride + x * 4) as usize;
    [buf[o], buf[o + 1], buf[o + 2], buf[o + 3]]
}

#[test]
fn clear_background_alpha_packed_rows() {
    let mut buf = vec![0u8; 4 * 3 * 4];
    clear_background_alpha(&mut buf, 4, 3, 16, (10, 20, 30), 200);
    for chunk in buf.chunks_exact(4) {
        assert_eq!(chunk, &[30, 20, 10, 200]);
    }
}

#[test]
fn clear_background_alpha_padded_rows() {
    let mut buf = vec![7u8; 24 * 2];
    clear_background_alpha(&mut buf, 4, 2, 24, (1, 2, 3), 255);
    assert_eq!(px(&buf, 24, 0, 0), [3, 2, 1, 255]);
    assert_eq!(px(&buf, 24, 3, 1), [3, 2, 1, 255]);
    assert_eq!(&buf[16..24], &[7u8; 8]);
}

#[test]
fn clear_dirty_rows_alpha_only_dirty() {
    let mut buf = vec![0u8; 4 * 4 * 6];
    let grid = GridMetrics { cell_w: 2, cell_h: 2, pad: 1 };
    clear_dirty_rows_alpha(&mut buf, 4, 16, &grid, &[1], (9, 9, 9), 255);
    // Terminal row 1 covers pixel rows 3 and 4.
    assert_eq!(px(&buf, 16, 0, 2), [0, 0, 0, 0]);
    assert_eq!(px(&buf, 16, 0, 3), [9, 9, 9, 255]);
    assert_eq!(px(&buf, 16, 3, 4), [9, 9, 9, 255]);
    assert_eq!(px(&buf, 16, 0, 5), [0, 0, 0, 0]);
}

#[test]
fn draw_cursor_block_blends_half() {
    let mut buf = vec![0u8; 8 * 8 * 4];
    let mut s = Surface { buf: &mut buf, width: 8, height: 8, stride: 32 };
    let grid = GridMetrics { cell_w: 2, cell_h: 4, pad: 0 };
    let c = CursorState { visible: true, in_viewport: true, x: 1, y: 1, style: CursorStyle::Block, blinking: false };
    draw_cursor(&mut s, &grid, &c, &colors(), true, false);
    // blend(255, 0, 128) = 128
    assert_eq!(px(&buf, 32, 2, 4), [128, 128, 128, 255]);
    assert_eq!(px(&buf, 32, 4, 4), [0, 0, 0, 0]);
}

#[test]
fn draw_cursor_blink_off_draws_nothing() {
    let mut buf = vec![0u8; 8 * 8 * 4];
    let mut s = Surface { buf: &mut buf, width: 8, height: 8, stride: 32 };
    let grid = GridMetrics { cell_w: 2, cell_h: 4, pad: 0 };
    let c = CursorState { visible: true, in_viewport: true, x: 0, y: 0, style: CursorStyle::Bar, blinking: true };
    draw_cursor(&mut s, &grid, &c, &colors(), false, false);
    assert!(buf.iter().all(|&b| b == 0));
}

#[test]
fn draw_cursor_hollow_outline() {
    let mut buf = vec![0u8; 8 * 8 * 4];
    let mut s = Surface { buf: &mut buf, width: 8, height: 8, stride: 32 };
    let grid = GridMetrics { cell_w: 4, cell_h: 4, pad: 0 };
    let c = CursorState { visible: true, in_viewport: true, x: 0, y: 0, style: CursorStyle::BlockHollow, blinking: false };
    draw_cursor(&mut s, &grid, &c, &colors(), true, false);
    assert_eq!(px(&buf, 32, 0, 0), [255, 255, 255, 255]);
    assert_eq!(px(&buf, 32, 3, 3), [255, 255, 255, 255]);
    assert_eq!(px(&buf, 32, 1, 1), [0, 0, 0, 0]);
}

#[test]
fn draw_selection_rows_span() {
    let mut buf = vec![0u8; 10 * 3 * 4];
    let mut s = Surface { buf: &mut buf, width: 10, height: 3, stride: 40 };
    let grid = GridMetrics { cell_w: 1, cell_h: 1, pad: 0 };
    let sel = SelectionRange { start_col: 7, start_row: 0, end_col: 2, end_row: 2 };
    draw_selection(&mut s, &grid, &sel, 10, (None, Some((200, 200, 200))));
    // first row from column 7 to the end, last row up to column 2, middle row whole
    assert_eq!(px(&buf, 40, 6, 0)[3], 0);
    assert_eq!(px(&buf, 40, 7, 0)[3], 255);
    assert_eq!(px(&buf, 40, 0, 1)[3], 255);
    assert_eq!(px(&buf, 40, 2, 2)[3], 255);
    assert_eq!(px(&buf, 40, 3, 2)[3], 0);
}

#[test]
fn draw_cell_decorations_strike_and_overline() {
    let mut buf = vec![0u8; 4 * 6 * 4];
    let mut s = Surface { buf: &mut buf, width: 4, height: 6, stride: 16 };
    let mut style = default_cell_style();
    style.attrs = CellStyleAttrs::from_bits(CellStyleAttrs::STRIKETHROUGH | CellStyleAttrs::OVERLINE);
    let area = Rect { x: 0, y: 0, w: 4, h: 6 };
    draw_cell_decorations(&mut s, &style, &colors(), &area, (1, 2, 3));
    assert_eq!(px(&buf, 16, 0, 0), [3, 2, 1, 255]);
    assert_eq!(px(&buf, 16, 3, 3), [3, 2, 1, 255]);
    assert_eq!(px(&buf, 16, 0, 1), [0, 0, 0, 0]);
}

#[test]
fn draw_cell_text_box_char_fills_cell() {
    let mut buf = vec![0u8; 4 * 4 * 4];
    let mut s = Surface { buf: &mut buf, width: 4, height: 4, stride: 16 };
    let origin = Rect { x: 0, y: 0, w: 4, h: 4 };
    draw_cell_text(&mut s, &origin, &[0x2588], None, (10, 20, 30));
    assert!(buf.chunks_exact(4).all(|p| p == [30, 20, 10, 255]));
}

#[test]
fn draw_cell_with_glyph_and_background() {
    let mut buf = vec![0u8; 8 * 10 * 4];
    let mut s = Surface { buf: &mut buf, width: 8, height: 10, stride: 32 };
    let grid = GridMetrics { cell_w: 4, cell_h: 10, pad: 0 };
    let mut style = default_cell_style();
    style.bg_tag = STYLE_COLOR_RGB;
    style.bg_rgb = (0, 0, 200);
    let glyph = GlyphImage { width: 1, height: 1, left: 0, top: 1, alpha: vec![255] };
    let wide = draw_cell(&mut s, &grid, &colors(), false, true, (1, 0), 0, 1, &[0x41], &style, true, Some(&glyph));
    assert!(wide);
    // background of the two-cell span
    assert_eq!(px(&buf, 32, 4, 0), [200, 0, 0, 255]);
    assert_eq!(px(&buf, 32, 7, 9), [200, 0, 0, 255]);
    // glyph pixel at baseline - top = 8 - 1 = 7
    assert_eq!(px(&buf, 32, 4, 7), [255, 255, 255, 255]);
    // first cell untouched
    assert_eq!(px(&buf, 32, 0, 0), [0, 0, 0, 0]);
}
