//! Terminal-side state: cell styles and colours as the renderer reads them,
//! dirty-row lists, and the state that the emulator's callbacks fill.

pub mod render;
pub mod state;
pub mod vt;
