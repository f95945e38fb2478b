//! Structured hotkeys and the actions they can stand for.

use vstd::prelude::*;

verus! {

/// A modifier key.
#[derive(Debug, Clone, Copy, PartialEq, Eq, Structural)]
pub enum Modifier {
    Ctrl,
    Alt,
    Shift,
}

/// A key or mouse button that a hotkey fires on.
#[derive(Debug, Clone, Copy, PartialEq, Eq, Structural)]
pub enum HotkeyKey {
    Char(char),
    F(u8),
    Enter,
    Space,
    Esc,
    Backspace,
    Tab,
    Left,
    Right,
    Up,
    Down,
    Insert,
    Delete,
    Home,
    End,
    PageUp,
    PageDown,
    Middle,
    XButton1,
    XButton2,
}

/// Modifiers held together with a key.
pub struct HotkeySpec {
    pub modifiers: Vec<Modifier>,
    pub key: HotkeyKey,
}

/// What a hotkey can be bound to.
#[derive(Debug, Clone, Copy, PartialEq, Eq, Structural)]
pub enum HotkeyAction {
    NextPreset,
    StartPauseToggle,
    Start,
    Pause,
    Reset,
    SlotToggle(usize),
    SlotReset(usize),
}

} // verus!
