//! Keyboard keys and mouse buttons that an action can synthesise.

use vstd::prelude::*;
use vstd::std_specs::convert::FromSpecImpl;

verus! {

/// A key of the keyboard, by its position on a standard layout.
#[derive(Clone, Copy, Debug, PartialEq, Eq, Structural, Hash)]
pub enum Key {
    Alt,
    AltGr,
    Backspace,
    CapsLock,
    ControlLeft,
    ControlRight,
    Delete,
    DownArrow,
    End,
    Escape,
    F1,
    F10,
    F11,
    F12,
    F2,
    F3,
    F4,
    F5,
    F6,
    F7,
    F8,
    F9,
    Home,
    LeftArrow,
    MetaLeft,
    MetaRight,
    PageDown,
    PageUp,
    Return,
    RightArrow,
    ShiftLeft,
    ShiftRight,
    Space,
    Tab,
    UpArrow,
    PrintScreen,
    ScrollLock,
    Pause,
    NumLock,
    BackQuote,
    Num1,
    Num2,
    Num3,
    Num4,
    Num5,
    Num6,
    Num7,
    Num8,
    Num9,
    Num0,
    Minus,
    Equal,
    KeyQ,
    KeyW,
    KeyE,
    KeyR,
    KeyT,
    KeyY,
    KeyU,
    KeyI,
    KeyO,
    KeyP,
    LeftBracket,
    RightBracket,
    KeyA,
    KeyS,
    KeyD,
    KeyF,
    KeyG,
    KeyH,
    KeyJ,
    KeyK,
    KeyL,
    SemiColon,
    Quote,
    BackSlash,
    IntlBackslash,
    KeyZ,
    KeyX,
    KeyC,
    KeyV,
    KeyB,
    KeyN,
    KeyM,
    Comma,
    Dot,
    Slash,
    Insert,
    KpReturn,
    KpMinus,
    KpPlus,
    KpMultiply,
    KpDivide,
    Kp0,
    Kp1,
    Kp2,
    Kp3,
    Kp4,
    Kp5,
    Kp6,
    Kp7,
    Kp8,
    Kp9,
    KpDelete,
    Function,
    /// A key known only by its platform code.
    Unknown(u32),
}

/// A modifier held around the primary key of a chord.
#[derive(Clone, Copy, Debug, PartialEq, Eq, Structural, Hash)]
pub enum ModifierKey {
    Alt,
    Ctrl,
    Win,
    Shift,
}

/// A button of the mouse.
#[derive(Clone, Copy, Debug, PartialEq, Eq, Structural, Hash)]
pub enum MouseButton {
    Left,
    Right,
    Middle,
}

/// The key that is pressed for a modifier: the left one of each pair.
pub open spec fn modifier_key(modifier: ModifierKey) -> Key {
    match modifier {
        ModifierKey::Alt => Key::Alt,
        ModifierKey::Ctrl => Key::ControlLeft,
        ModifierKey::Win => Key::MetaLeft,
        ModifierKey::Shift => Key::ShiftLeft,
    }
}

impl From<ModifierKey> for Key {
    fn from(key: ModifierKey) -> (pressed: Key) {
        match key {
            ModifierKey::Alt => Key::Alt,
            ModifierKey::Ctrl => Key::ControlLeft,
            ModifierKey::Win => Key::MetaLeft,
            ModifierKey::Shift => Key::ShiftLeft,
        }
    }
}

impl FromSpecImpl<ModifierKey> for Key {
    open spec fn obeys_from_spec() -> bool {
        true
    }

    open spec fn from_spec(key: ModifierKey) -> Key {
        modifier_key(key)
    }
}

} // verus!
