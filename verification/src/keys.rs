use vstd::prelude::*;

verus! {

/// A key, as the launcher's input handling distinguishes them.
#[derive(Clone, Copy, Debug, PartialEq, Eq, Structural)]
pub enum KeyCode {
    Char(char),
    Enter,
    Esc,
    Backspace,
    Tab,
    Left,
    Right,
    Up,
    Down,
    PageUp,
    PageDown,
    Home,
    End,
    Other,
}

/// Modifier keys held during a key press.
#[derive(Clone, Copy, Debug, PartialEq, Eq, Structural)]
pub struct KeyModifiers {
    pub shift: bool,
    pub control: bool,
    pub alt: bool,
}

/// One key press.
#[derive(Clone, Copy, Debug, PartialEq, Eq, Structural)]
pub struct KeyEvent {
    pub code: KeyCode,
    pub modifiers: KeyModifiers,
}

impl KeyModifiers {
    pub fn none() -> (r: KeyModifiers)
        ensures
            !r.shift && !r.control && !r.alt,
    {
        KeyModifiers { shift: false, control: false, alt: false }
    }
}

impl KeyEvent {
    /// A key press without modifiers.
    pub fn plain(code: KeyCode) -> (r: KeyEvent)
        ensures
            r.code == code,
            !r.modifiers.shift && !r.modifiers.control && !r.modifiers.alt,
    {
        KeyEvent { code, modifiers: KeyModifiers::none() }
    }

    /// A key press with the given modifiers.
    pub fn new(code: KeyCode, modifiers: KeyModifiers) -> (r: KeyEvent)
        ensures
            r.code == code,
            r.modifiers == modifiers,
    {
        KeyEvent { code, modifiers }
    }
}

} // verus!
