use horseshoe::terminal::render::{collect_dirty_rows, CursorStyle, DirtyRows, RenderColors};
use horseshoe::terminal::vt::CallbackState;

#[test]
fn callback_state_take_returns_recorded() {
    let mut s = CallbackState::new(80, 24);
    s.record_pty_write(b"\x1b[?1;2c");
    s.record_pty_write(b"ok");
    assert_eq!(s.take_pty_responses(), b"\x1b[?1;2cok".to_vec());
    assert!(s.take_pty_responses().is_empty());
}

#[test]
fn callback_state_bell_and_title() {
    let mut s = CallbackState::new(80, 24);
    assert!(!s.take_bell());
    s.record_bell();
    assert!(s.take_bell());
    assert!(!s.take_bell());
    s.record_title("vim".to_string());
    assert_eq!(s.take_title().as_deref(), Some("vim"));
    assert!(s.take_title().is_none());
    s.set_size(100, 30);
    assert_eq!((s.cols, s.rows), (100, 30));
}

#[test]
fn dirty_rows_push_caps_at_256() {
    let mut d = DirtyRows::new();
    assert!(d.is_empty());
    for r in 0..300u16 {
        d.push(r);
    }
    assert_eq!(d.len(), 256);
    assert_eq!(d.as_slice()[255], 255);
}

#[test]
fn collect_dirty_rows_filters() {
    let flags = [true, false, true, true];
    let d = collect_dirty_rows(&flags, 3);
    assert_eq!(d.as_slice(), &[0, 2]);
}

#[test]
fn cursor_style_codes() {
    assert_eq!(CursorStyle::from_code(0), CursorStyle::Bar);
    assert_eq!(CursorStyle::from_code(1), CursorStyle::Block);
    assert_eq!(CursorStyle::from_code(2), CursorStyle::Underline);
    assert_eq!(CursorStyle::from_code(3), CursorStyle::BlockHollow);
    assert_eq!(CursorStyle::from_code(99), CursorStyle::Block);
}

#[test]
fn render_colors_black_on_black_fallback() {
    let c = RenderColors::from_raw((0, 0, 0), (0, 0, 0), None, [(0, 0, 0); 256]);
    assert_eq!(c.foreground, (255, 255, 255));
    let c2 = RenderColors::from_raw((1, 2, 3), (0, 0, 0), Some((4, 5, 6)), [(0, 0, 0); 256]);
    assert_eq!(c2.foreground, (1, 2, 3));
    assert_eq!(c2.cursor, Some((4, 5, 6)));
}
