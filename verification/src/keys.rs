//! Key presses as the screens receive them.
use vstd::prelude::*;

verus! {

/// The key of a key press.
#[derive(Clone, Copy, Debug, PartialEq, Eq, Structural)]
pub enum KeyCode {
    Char(char),
    Enter,
    Esc,
    Tab,
    BackTab,
    Up,
    Down,
    Left,
    Right,
    Backspace,
    /// Any other key; no screen reacts to it.
    Other,
}

/// The modifiers held with a key press. The screens only ever ask whether
/// exactly Shift or exactly Control was held.
#[derive(Clone, Copy, Debug, PartialEq, Eq, Structural)]
pub enum KeyModifiers {
    /// No modifier.
    Plain,
    /// Shift and nothing else.
    Shift,
    /// Control and nothing else.
    Control,
    /// Any other combination.
    Other,
}

/// The modifiers held, read from the bits of a terminal's modifier set (shift
/// is bit 0, control bit 1; alt, super, hyper and meta are the higher bits).
pub open spec fn modifiers_of(bits: u8) -> KeyModifiers {
    if bits == 0 {
        KeyModifiers::Plain
    } else if bits == 1 {
        KeyModifiers::Shift
    } else if bits == 2 {
        KeyModifiers::Control
    } else {
        KeyModifiers::Other
    }
}

/// The modifiers held, from the bits of a terminal's modifier set.
pub fn key_modifiers(bits: u8) -> (m: KeyModifiers)
    ensures
        m == modifiers_of(bits),
{
    if bits == 0 {
        KeyModifiers::Plain
    } else if bits == 1 {
        KeyModifiers::Shift
    } else if bits == 2 {
        KeyModifiers::Control
    } else {
        KeyModifiers::Other
    }
}

/// The key that closes the session: Ctrl+Q.
pub open spec fn is_quit_key(key: (KeyCode, KeyModifiers)) -> bool {
    key.0 == KeyCode::Char('q') && key.1 == KeyModifiers::Control
}

/// Whether `key` closes the session.
pub fn is_quit(key: (KeyCode, KeyModifiers)) -> (r: bool)
    ensures
        r == is_quit_key(key),
{
    match key {
        (KeyCode::Char('q'), KeyModifiers::Control) => true,
        _ => false,
    }
}

/// Keys that move the focus forward: Tab and Down, whatever the modifiers.
pub open spec fn is_next_key(key: (KeyCode, KeyModifiers)) -> bool {
    key.0 == KeyCode::Tab || key.0 == KeyCode::Down
}

/// Keys that move the focus back: Shift+BackTab, and Up whatever the modifiers.
pub open spec fn is_prev_key(key: (KeyCode, KeyModifiers)) -> bool {
    (key.0 == KeyCode::BackTab && key.1 == KeyModifiers::Shift) || key.0 == KeyCode::Up
}

} // verus!
