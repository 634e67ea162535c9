//! Verified core logic of a Wayland terminal emulator: text selection and
//! search navigation, paste preparation, procedural box-drawing glyphs,
//! pixel primitives, key-binding and colour configuration parsing.

pub mod selection;
pub mod paste;
pub mod num;
pub mod boxdraw;
pub mod text;
pub mod config;
pub mod renderer;
pub mod terminal;
pub mod font;
pub mod pty;
pub mod keymap;
