//! Input events as the chrome logic reads them: which physical key, which
//! logical key, which modifiers are held, which mouse button.

use vstd::prelude::*;

verus! {

/// Physical key position of a key event (the keys the chrome reacts to).
#[derive(Clone, Copy, Debug, PartialEq, Eq, Structural)]
pub enum KeyCode {
    Enter,
    NumpadEnter,
    Escape,
    Backspace,
    Delete,
    ArrowLeft,
    ArrowRight,
    Home,
    End,
    Tab,
    F5,
    KeyA,
    KeyD,
    KeyF,
    KeyH,
    KeyL,
    KeyN,
    KeyO,
    KeyR,
    KeyT,
    KeyW,
    Digit1,
    Digit2,
    Digit3,
    Digit4,
    Digit5,
    Digit6,
    Digit7,
    Digit8,
    Digit9,
    /// Any other key.
    Other,
}

/// Modifier keys held during a key event.
#[derive(Clone, Copy, Debug, PartialEq, Eq, Structural)]
pub struct KeyModifiers {
    pub shift: bool,
    pub control: bool,
    pub alt: bool,
}

/// Logical meaning of a key event.
#[derive(Clone, Debug)]
pub enum LogicalKey {
    /// A key that produces text.
    Character(String),
    Enter,
    Escape,
    Backspace,
    Delete,
    ArrowLeft,
    ArrowRight,
    Home,
    End,
    /// Any other named key.
    Other,
}

/// Whether a key went down or came up.
#[derive(Clone, Copy, Debug, PartialEq, Eq, Structural)]
pub enum KeyState {
    Down,
    Up,
}

/// A mouse button.
#[derive(Clone, Copy, Debug, PartialEq, Eq, Structural)]
pub enum MouseButton {
    Left,
    Middle,
    Right,
    Back,
    Forward,
    Other,
}

} // verus!
