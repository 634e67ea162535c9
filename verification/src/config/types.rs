//! Small configuration enums.

use vstd::prelude::*;

verus! {

/// Initial window mode.
#[derive(Debug, Clone, Copy, PartialEq, Eq, Structural)]
pub enum WindowMode {
    Windowed,
    Maximized,
    Fullscreen,
}

impl Default for WindowMode {
    fn default() -> (m: Self)
        ensures
            m == WindowMode::Windowed,
    {
        WindowMode::Windowed
    }
}

/// Selection target for automatic selection-to-clipboard behavior.
#[derive(Debug, Clone, Copy, PartialEq, Eq, Structural)]
pub enum SelectionTarget {
    /// Selections go to neither selection buffer (`selection-target=none`).
    Neither,
    Primary,
    Clipboard,
    Both,
}

impl Default for SelectionTarget {
    fn default() -> (t: Self)
        ensures
            t == SelectionTarget::Primary,
    {
        SelectionTarget::Primary
    }
}

} // verus!
