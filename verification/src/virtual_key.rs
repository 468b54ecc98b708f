use vstd::prelude::*;

verus! {

/// Identity of a physical keyboard key or pointer button.
///
/// `Unknown` carries the raw platform key code of a key this library has no
/// name for, so that such keys can still take part in chords.
#[derive(PartialEq, Eq, Structural, Clone, Copy, Hash, Debug)]
pub enum KeyCode {
    Unknown(u32),
    Escape,
    F1,
    F2,
    F3,
    F4,
    F5,
    F6,
    F7,
    F8,
    F9,
    F10,
    F11,
    F12,
    Backquote,
    Num1,
    Num2,
    Num3,
    Num4,
    Num5,
    Num6,
    Num7,
    Num8,
    Num9,
    Num0,
    Minus,
    Equal,
    Backspace,
    Tab,
    KeyQ,
    KeyW,
    KeyE,
    KeyR,
    KeyT,
    KeyY,
    KeyU,
    KeyI,
    KeyO,
    KeyP,
    LeftBracket,
    RightBracket,
    Backslash,
    Capslock,
    KeyA,
    KeyS,
    KeyD,
    KeyF,
    KeyG,
    KeyH,
    KeyJ,
    KeyK,
    KeyL,
    Semicolon,
    Quote,
    Enter,
    ShiftLeft,
    KeyZ,
    KeyX,
    KeyC,
    KeyV,
    KeyB,
    KeyN,
    KeyM,
    Comma,
    Dot,
    Slash,
    ShiftRight,
    ControlLeft,
    /// Also known as "windows", "super", and "command".
    MetaLeft,
    AltLeft,
    Space,
    AltRight,
    /// Also known as "windows", "super", and "command".
    MetaRight,
    ControlRight,
    Printscreen,
    ScrollLock,
    Pause,
    Insert,
    Home,
    PageUp,
    Delete,
    End,
    PageDown,
    UpArrow,
    DownArrow,
    LeftArrow,
    RightArrow,
    MouseLeft,
    MouseRight,
    MouseMiddle,
}

/// The platform virtual-key code that stands for `k`.
pub open spec fn windows_id_of(k: KeyCode) -> u32 {
    match k {
        KeyCode::Unknown(v) => v,
        KeyCode::Escape => 0x1B,
        KeyCode::F1 => 0x70,
        KeyCode::F2 => 0x71,
        KeyCode::F3 => 0x72,
        KeyCode::F4 => 0x73,
        KeyCode::F5 => 0x74,
        KeyCode::F6 => 0x75,
        KeyCode::F7 => 0x76,
        KeyCode::F8 => 0x77,
        KeyCode::F9 => 0x78,
        KeyCode::F10 => 0x79,
        KeyCode::F11 => 0x7A,
        KeyCode::F12 => 0x7B,
        KeyCode::Backquote => 0xC0,
        KeyCode::Num1 => 0x31,
        KeyCode::Num2 => 0x32,
        KeyCode::Num3 => 0x33,
        KeyCode::Num4 => 0x34,
        KeyCode::Num5 => 0x35,
        KeyCode::Num6 => 0x36,
        KeyCode::Num7 => 0x37,
        KeyCode::Num8 => 0x38,
        KeyCode::Num9 => 0x39,
        KeyCode::Num0 => 0x30,
        KeyCode::Minus => 0xBD,
        KeyCode::Equal => 0xBB,
        KeyCode::Backspace => 0x08,
        KeyCode::Tab => 0x09,
        KeyCode::KeyQ => 0x51,
        KeyCode::KeyW => 0x57,
        KeyCode::KeyE => 0x45,
        KeyCode::KeyR => 0x52,
        KeyCode::KeyT => 0x54,
        KeyCode::KeyY => 0x59,
        KeyCode::KeyU => 0x55,
        KeyCode::KeyI => 0x49,
        KeyCode::KeyO => 0x4F,
        KeyCode::KeyP => 0x50,
        KeyCode::LeftBracket => 0xDB,
        KeyCode::RightBracket => 0xDD,
        KeyCode::Backslash => 0xDC,
        KeyCode::Capslock => 0x14,
        KeyCode::KeyA => 0x41,
        KeyCode::KeyS => 0x53,
        KeyCode::KeyD => 0x44,
        KeyCode::KeyF => 0x46,
        KeyCode::KeyG => 0x47,
        KeyCode::KeyH => 0x48,
        KeyCode::KeyJ => 0x4A,
        KeyCode::KeyK => 0x4B,
        KeyCode::KeyL => 0x4C,
        KeyCode::Semicolon => 0xBA,
        KeyCode::Quote => 0xDE,
        KeyCode::Enter => 0x0D,
        KeyCode::ShiftLeft => 0xA0,
        KeyCode::KeyZ => 0x5A,
        KeyCode::KeyX => 0x58,
        KeyCode::KeyC => 0x43,
        KeyCode::KeyV => 0x56,
        KeyCode::KeyB => 0x42,
        KeyCode::KeyN => 0x4E,
        KeyCode::KeyM => 0x4D,
        KeyCode::Comma => 0xBC,
        KeyCode::Dot => 0xBE,
        KeyCode::Slash => 0xBF,
        KeyCode::ShiftRight => 0xA1,
        KeyCode::ControlLeft => 0xA2,
        KeyCode::MetaLeft => 0x5B,
        KeyCode::AltLeft => 0xA4,
        KeyCode::Space => 0x20,
        KeyCode::AltRight => 0xA5,
        KeyCode::MetaRight => 0x5C,
        KeyCode::ControlRight => 0xA3,
        KeyCode::Printscreen => 0x2C,
        KeyCode::ScrollLock => 0x91,
        KeyCode::Pause => 0x13,
        KeyCode::Insert => 0x2D,
        KeyCode::Home => 0x24,
        KeyCode::PageUp => 0x21,
        KeyCode::Delete => 0x2E,
        KeyCode::End => 0x23,
        KeyCode::PageDown => 0x22,
        KeyCode::UpArrow => 0x26,
        KeyCode::DownArrow => 0x28,
        KeyCode::LeftArrow => 0x25,
        KeyCode::RightArrow => 0x27,
        KeyCode::MouseLeft => 0x01,
        KeyCode::MouseRight => 0x02,
        KeyCode::MouseMiddle => 0x04,
    }
}

/// The key named by the platform virtual-key code `id`.
pub open spec fn key_of_windows_id(id: u32) -> KeyCode {
    match id {
        0x1B => KeyCode::Escape,
        0x70 => KeyCode::F1,
        0x71 => KeyCode::F2,
        0x72 => KeyCode::F3,
        0x73 => KeyCode::F4,
        0x74 => KeyCode::F5,
        0x75 => KeyCode::F6,
        0x76 => KeyCode::F7,
        0x77 => KeyCode::F8,
        0x78 => KeyCode::F9,
        0x79 => KeyCode::F10,
        0x7A => KeyCode::F11,
        0x7B => KeyCode::F12,
        0xC0 => KeyCode::Backquote,
        0x31 => KeyCode::Num1,
        0x32 => KeyCode::Num2,
        0x33 => KeyCode::Num3,
        0x34 => KeyCode::Num4,
        0x35 => KeyCode::Num5,
        0x36 => KeyCode::Num6,
        0x37 => KeyCode::Num7,
        0x38 => KeyCode::Num8,
        0x39 => KeyCode::Num9,
        0x30 => KeyCode::Num0,
        0xBD => KeyCode::Minus,
        0xBB => KeyCode::Equal,
        0x08 => KeyCode::Backspace,
        0x09 => KeyCode::Tab,
        0x51 => KeyCode::KeyQ,
        0x57 => KeyCode::KeyW,
        0x45 => KeyCode::KeyE,
        0x52 => KeyCode::KeyR,
        0x54 => KeyCode::KeyT,
        0x59 => KeyCode::KeyY,
        0x55 => KeyCode::KeyU,
        0x49 => KeyCode::KeyI,
        0x4F => KeyCode::KeyO,
        0x50 => KeyCode::KeyP,
        0xDB => KeyCode::LeftBracket,
        0xDD => KeyCode::RightBracket,
        0xDC => KeyCode::Backslash,
        0x14 => KeyCode::Capslock,
        0x41 => KeyCode::KeyA,
        0x53 => KeyCode::KeyS,
        0x44 => KeyCode::KeyD,
        0x46 => KeyCode::KeyF,
        0x47 => KeyCode::KeyG,
        0x48 => KeyCode::KeyH,
        0x4A => KeyCode::KeyJ,
        0x4B => KeyCode::KeyK,
        0x4C => KeyCode::KeyL,
        0xBA => KeyCode::Semicolon,
        0xDE => KeyCode::Quote,
        0x0D => KeyCode::Enter,
        0xA0 => KeyCode::ShiftLeft,
        0x5A => KeyCode::KeyZ,
        0x58 => KeyCode::KeyX,
        0x43 => KeyCode::KeyC,
        0x56 => KeyCode::KeyV,
        0x42 => KeyCode::KeyB,
        0x4E => KeyCode::KeyN,
        0x4D => KeyCode::KeyM,
        0xBC => KeyCode::Comma,
        0xBE => KeyCode::Dot,
        0xBF => KeyCode::Slash,
        0xA1 => KeyCode::ShiftRight,
        0xA2 => KeyCode::ControlLeft,
        0x5B => KeyCode::MetaLeft,
        0xA4 => KeyCode::AltLeft,
        0x20 => KeyCode::Space,
        0xA5 => KeyCode::AltRight,
        0x5C => KeyCode::MetaRight,
        0xA3 => KeyCode::ControlRight,
        0x2C => KeyCode::Printscreen,
        0x91 => KeyCode::ScrollLock,
        0x13 => KeyCode::Pause,
        0x2D => KeyCode::Insert,
        0x24 => KeyCode::Home,
        0x21 => KeyCode::PageUp,
        0x2E => KeyCode::Delete,
        0x23 => KeyCode::End,
        0x22 => KeyCode::PageDown,
        0x26 => KeyCode::UpArrow,
        0x28 => KeyCode::DownArrow,
        0x25 => KeyCode::LeftArrow,
        0x27 => KeyCode::RightArrow,
        0x01 => KeyCode::MouseLeft,
        0x02 => KeyCode::MouseRight,
        0x04 => KeyCode::MouseMiddle,
        _ => KeyCode::Unknown(id),
    }
}

impl KeyCode {
    /// Translates a platform virtual-key code into a key.
    pub fn from_windows_id(id: u32) -> (k: KeyCode)
        ensures
            k == key_of_windows_id(id),
    {
        match id {
            0x1B => KeyCode::Escape,
            0x70 => KeyCode::F1,
            0x71 => KeyCode::F2,
            0x72 => KeyCode::F3,
            0x73 => KeyCode::F4,
            0x74 => KeyCode::F5,
            0x75 => KeyCode::F6,
            0x76 => KeyCode::F7,
            0x77 => KeyCode::F8,
            0x78 => KeyCode::F9,
            0x79 => KeyCode::F10,
            0x7A => KeyCode::F11,
            0x7B => KeyCode::F12,
            0xC0 => KeyCode::Backquote,
            0x31 => KeyCode::Num1,
            0x32 => KeyCode::Num2,
            0x33 => KeyCode::Num3,
            0x34 => KeyCode::Num4,
            0x35 => KeyCode::Num5,
            0x36 => KeyCode::Num6,
            0x37 => KeyCode::Num7,
            0x38 => KeyCode::Num8,
            0x39 => KeyCode::Num9,
            0x30 => KeyCode::Num0,
            0xBD => KeyCode::Minus,
            0xBB => KeyCode::Equal,
            0x08 => KeyCode::Backspace,
            0x09 => KeyCode::Tab,
            0x51 => KeyCode::KeyQ,
            0x57 => KeyCode::KeyW,
            0x45 => KeyCode::KeyE,
            0x52 => KeyCode::KeyR,
            0x54 => KeyCode::KeyT,
            0x59 => KeyCode::KeyY,
            0x55 => KeyCode::KeyU,
            0x49 => KeyCode::KeyI,
            0x4F => KeyCode::KeyO,
            0x50 => KeyCode::KeyP,
            0xDB => KeyCode::LeftBracket,
            0xDD => KeyCode::RightBracket,
            0xDC => KeyCode::Backslash,
            0x14 => KeyCode::Capslock,
            0x41 => KeyCode::KeyA,
            0x53 => KeyCode::KeyS,
            0x44 => KeyCode::KeyD,
            0x46 => KeyCode::KeyF,
            0x47 => KeyCode::KeyG,
            0x48 => KeyCode::KeyH,
            0x4A => KeyCode::KeyJ,
            0x4B => KeyCode::KeyK,
            0x4C => KeyCode::KeyL,
            0xBA => KeyCode::Semicolon,
            0xDE => KeyCode::Quote,
            0x0D => KeyCode::Enter,
            0xA0 => KeyCode::ShiftLeft,
            0x5A => KeyCode::KeyZ,
            0x58 => KeyCode::KeyX,
            0x43 => KeyCode::KeyC,
            0x56 => KeyCode::KeyV,
            0x42 => KeyCode::KeyB,
            0x4E => KeyCode::KeyN,
            0x4D => KeyCode::KeyM,
            0xBC => KeyCode::Comma,
            0xBE => KeyCode::Dot,
            0xBF => KeyCode::Slash,
            0xA1 => KeyCode::ShiftRight,
            0xA2 => KeyCode::ControlLeft,
            0x5B => KeyCode::MetaLeft,
            0xA4 => KeyCode::AltLeft,
            0x20 => KeyCode::Space,
            0xA5 => KeyCode::AltRight,
            0x5C => KeyCode::MetaRight,
            0xA3 => KeyCode::ControlRight,
            0x2C => KeyCode::Printscreen,
            0x91 => KeyCode::ScrollLock,
            0x13 => KeyCode::Pause,
            0x2D => KeyCode::Insert,
            0x24 => KeyCode::Home,
            0x21 => KeyCode::PageUp,
            0x2E => KeyCode::Delete,
            0x23 => KeyCode::End,
            0x22 => KeyCode::PageDown,
            0x26 => KeyCode::UpArrow,
            0x28 => KeyCode::DownArrow,
            0x25 => KeyCode::LeftArrow,
            0x27 => KeyCode::RightArrow,
            0x01 => KeyCode::MouseLeft,
            0x02 => KeyCode::MouseRight,
            0x04 => KeyCode::MouseMiddle,
            _ => KeyCode::Unknown(id),
        }
    }

    /// The platform virtual-key code of this key.
    pub fn to_windows_id(&self) -> (id: u32)
        ensures
            id == windows_id_of(*self),
    {
        match self {
            KeyCode::Unknown(v) => *v,
            KeyCode::Escape => 0x1B,
            KeyCode::F1 => 0x70,
            KeyCode::F2 => 0x71,
            KeyCode::F3 => 0x72,
            KeyCode::F4 => 0x73,
            KeyCode::F5 => 0x74,
            KeyCode::F6 => 0x75,
            KeyCode::F7 => 0x76,
            KeyCode::F8 => 0x77,
            KeyCode::F9 => 0x78,
            KeyCode::F10 => 0x79,
            KeyCode::F11 => 0x7A,
            KeyCode::F12 => 0x7B,
            KeyCode::Backquote => 0xC0,
            KeyCode::Num1 => 0x31,
            KeyCode::Num2 => 0x32,
            KeyCode::Num3 => 0x33,
            KeyCode::Num4 => 0x34,
            KeyCode::Num5 => 0x35,
            KeyCode::Num6 => 0x36,
            KeyCode::Num7 => 0x37,
            KeyCode::Num8 => 0x38,
            KeyCode::Num9 => 0x39,
            KeyCode::Num0 => 0x30,
            KeyCode::Minus => 0xBD,
            KeyCode::Equal => 0xBB,
            KeyCode::Backspace => 0x08,
            KeyCode::Tab => 0x09,
            KeyCode::KeyQ => 0x51,
            KeyCode::KeyW => 0x57,
            KeyCode::KeyE => 0x45,
            KeyCode::KeyR => 0x52,
            KeyCode::KeyT => 0x54,
            KeyCode::KeyY => 0x59,
            KeyCode::KeyU => 0x55,
            KeyCode::KeyI => 0x49,
            KeyCode::KeyO => 0x4F,
            KeyCode::KeyP => 0x50,
            KeyCode::LeftBracket => 0xDB,
            KeyCode::RightBracket => 0xDD,
            KeyCode::Backslash => 0xDC,
            KeyCode::Capslock => 0x14,
            KeyCode::KeyA => 0x41,
            KeyCode::KeyS => 0x53,
            KeyCode::KeyD => 0x44,
            KeyCode::KeyF => 0x46,
            KeyCode::KeyG => 0x47,
            KeyCode::KeyH => 0x48,
            KeyCode::KeyJ => 0x4A,
            KeyCode::KeyK => 0x4B,
            KeyCode::KeyL => 0x4C,
            KeyCode::Semicolon => 0xBA,
            KeyCode::Quote => 0xDE,
            KeyCode::Enter => 0x0D,
            KeyCode::ShiftLeft => 0xA0,
            KeyCode::KeyZ => 0x5A,
            KeyCode::KeyX => 0x58,
            KeyCode::KeyC => 0x43,
            KeyCode::KeyV => 0x56,
            KeyCode::KeyB => 0x42,
            KeyCode::KeyN => 0x4E,
            KeyCode::KeyM => 0x4D,
            KeyCode::Comma => 0xBC,
            KeyCode::Dot => 0xBE,
            KeyCode::Slash => 0xBF,
            KeyCode::ShiftRight => 0xA1,
            KeyCode::ControlLeft => 0xA2,
            KeyCode::MetaLeft => 0x5B,
            KeyCode::AltLeft => 0xA4,
            KeyCode::Space => 0x20,
            KeyCode::AltRight => 0xA5,
            KeyCode::MetaRight => 0x5C,
            KeyCode::ControlRight => 0xA3,
            KeyCode::Printscreen => 0x2C,
            KeyCode::ScrollLock => 0x91,
            KeyCode::Pause => 0x13,
            KeyCode::Insert => 0x2D,
            KeyCode::Home => 0x24,
            KeyCode::PageUp => 0x21,
            KeyCode::Delete => 0x2E,
            KeyCode::End => 0x23,
            KeyCode::PageDown => 0x22,
            KeyCode::UpArrow => 0x26,
            KeyCode::DownArrow => 0x28,
            KeyCode::LeftArrow => 0x25,
            KeyCode::RightArrow => 0x27,
            KeyCode::MouseLeft => 0x01,
            KeyCode::MouseRight => 0x02,
            KeyCode::MouseMiddle => 0x04,
        }
    }

    /// The key's name.
    pub fn to_str(&self) -> (r: &str)
        ensures
            r@ == key_name(*self),
    {
        match self {
            KeyCode::Unknown(_) => "Unknown",
            KeyCode::Escape => "Escape",
            KeyCode::F1 => "F1",
            KeyCode::F2 => "F2",
            KeyCode::F3 => "F3",
            KeyCode::F4 => "F4",
            KeyCode::F5 => "F5",
            KeyCode::F6 => "F6",
            KeyCode::F7 => "F7",
            KeyCode::F8 => "F8",
            KeyCode::F9 => "F9",
            KeyCode::F10 => "F10",
            KeyCode::F11 => "F11",
            KeyCode::F12 => "F12",
            KeyCode::Backquote => "Backquote",
            KeyCode::Num1 => "Num1",
            KeyCode::Num2 => "Num2",
            KeyCode::Num3 => "Num3",
            KeyCode::Num4 => "Num4",
            KeyCode::Num5 => "Num5",
            KeyCode::Num6 => "Num6",
            KeyCode::Num7 => "Num7",
            KeyCode::Num8 => "Num8",
            KeyCode::Num9 => "Num9",
            KeyCode::Num0 => "Num0",
            KeyCode::Minus => "Minus",
            KeyCode::Equal => "Equal",
            KeyCode::Backspace => "Backspace",
            KeyCode::Tab => "Tab",
            KeyCode::KeyQ => "KeyQ",
            KeyCode::KeyW => "KeyW",
            KeyCode::KeyE => "KeyE",
            KeyCode::KeyR => "KeyR",
            KeyCode::KeyT => "KeyT",
            KeyCode::KeyY => "KeyY",
            KeyCode::KeyU => "KeyU",
            KeyCode::KeyI => "KeyI",
            KeyCode::KeyO => "KeyO",
            KeyCode::KeyP => "KeyP",
            KeyCode::LeftBracket => "LeftBracket",
            KeyCode::RightBracket => "RightBracket",
            KeyCode::Backslash => "Backslash",
            KeyCode::Capslock => "Capslock",
            KeyCode::KeyA => "KeyA",
            KeyCode::KeyS => "KeyS",
            KeyCode::KeyD => "KeyD",
            KeyCode::KeyF => "KeyF",
            KeyCode::KeyG => "KeyG",
            KeyCode::KeyH => "KeyH",
            KeyCode::KeyJ => "KeyJ",
            KeyCode::KeyK => "KeyK",
            KeyCode::KeyL => "KeyL",
            KeyCode::Semicolon => "Semicolon",
            KeyCode::Quote => "Quote",
            KeyCode::Enter => "Enter",
            KeyCode::ShiftLeft => "ShiftLeft",
            KeyCode::KeyZ => "KeyZ",
            KeyCode::KeyX => "KeyX",
            KeyCode::KeyC => "KeyC",
            KeyCode::KeyV => "KeyV",
            KeyCode::KeyB => "KeyB",
            KeyCode::KeyN => "KeyN",
            KeyCode::KeyM => "KeyM",
            KeyCode::Comma => "Comma",
            KeyCode::Dot => "Dot",
            KeyCode::Slash => "Slash",
            KeyCode::ShiftRight => "ShiftRight",
            KeyCode::ControlLeft => "ControlLeft",
            KeyCode::MetaLeft => "MetaLeft",
            KeyCode::AltLeft => "AltLeft",
            KeyCode::Space => "Space",
            KeyCode::AltRight => "AltRight",
            KeyCode::MetaRight => "MetaRight",
            KeyCode::ControlRight => "ControlRight",
            KeyCode::Printscreen => "Printscreen",
            KeyCode::ScrollLock => "ScrollLock",
            KeyCode::Pause => "Pause",
            KeyCode::Insert => "Insert",
            KeyCode::Home => "Home",
            KeyCode::PageUp => "PageUp",
            KeyCode::Delete => "Delete",
            KeyCode::End => "End",
            KeyCode::PageDown => "PageDown",
            KeyCode::UpArrow => "UpArrow",
            KeyCode::DownArrow => "DownArrow",
            KeyCode::LeftArrow => "LeftArrow",
            KeyCode::RightArrow => "RightArrow",
            KeyCode::MouseLeft => "MouseLeft",
            KeyCode::MouseRight => "MouseRight",
            KeyCode::MouseMiddle => "MouseMiddle",
        }
    }
}

/// The name of key `k`.
pub open spec fn key_name(k: KeyCode) -> Seq<char> {
    match k {
        KeyCode::Unknown(_) => "Unknown"@,
        KeyCode::Escape => "Escape"@,
        KeyCode::F1 => "F1"@,
        KeyCode::F2 => "F2"@,
        KeyCode::F3 => "F3"@,
        KeyCode::F4 => "F4"@,
        KeyCode::F5 => "F5"@,
        KeyCode::F6 => "F6"@,
        KeyCode::F7 => "F7"@,
        KeyCode::F8 => "F8"@,
        KeyCode::F9 => "F9"@,
        KeyCode::F10 => "F10"@,
        KeyCode::F11 => "F11"@,
        KeyCode::F12 => "F12"@,
        KeyCode::Backquote => "Backquote"@,
        KeyCode::Num1 => "Num1"@,
        KeyCode::Num2 => "Num2"@,
        KeyCode::Num3 => "Num3"@,
        KeyCode::Num4 => "Num4"@,
        KeyCode::Num5 => "Num5"@,
        KeyCode::Num6 => "Num6"@,
        KeyCode::Num7 => "Num7"@,
        KeyCode::Num8 => "Num8"@,
        KeyCode::Num9 => "Num9"@,
        KeyCode::Num0 => "Num0"@,
        KeyCode::Minus => "Minus"@,
        KeyCode::Equal => "Equal"@,
        KeyCode::Backspace => "Backspace"@,
        KeyCode::Tab => "Tab"@,
        KeyCode::KeyQ => "KeyQ"@,
        KeyCode::KeyW => "KeyW"@,
        KeyCode::KeyE => "KeyE"@,
        KeyCode::KeyR => "KeyR"@,
        KeyCode::KeyT => "KeyT"@,
        KeyCode::KeyY => "KeyY"@,
        KeyCode::KeyU => "KeyU"@,
        KeyCode::KeyI => "KeyI"@,
        KeyCode::KeyO => "KeyO"@,
        KeyCode::KeyP => "KeyP"@,
        KeyCode::LeftBracket => "LeftBracket"@,
        KeyCode::RightBracket => "RightBracket"@,
        KeyCode::Backslash => "Backslash"@,
        KeyCode::Capslock => "Capslock"@,
        KeyCode::KeyA => "KeyA"@,
        KeyCode::KeyS => "KeyS"@,
        KeyCode::KeyD => "KeyD"@,
        KeyCode::KeyF => "KeyF"@,
        KeyCode::KeyG => "KeyG"@,
        KeyCode::KeyH => "KeyH"@,
        KeyCode::KeyJ => "KeyJ"@,
        KeyCode::KeyK => "KeyK"@,
        KeyCode::KeyL => "KeyL"@,
        KeyCode::Semicolon => "Semicolon"@,
        KeyCode::Quote => "Quote"@,
        KeyCode::Enter => "Enter"@,
        KeyCode::ShiftLeft => "ShiftLeft"@,
        KeyCode::KeyZ => "KeyZ"@,
        KeyCode::KeyX => "KeyX"@,
        KeyCode::KeyC => "KeyC"@,
        KeyCode::KeyV => "KeyV"@,
        KeyCode::KeyB => "KeyB"@,
        KeyCode::KeyN => "KeyN"@,
        KeyCode::KeyM => "KeyM"@,
        KeyCode::Comma => "Comma"@,
        KeyCode::Dot => "Dot"@,
        KeyCode::Slash => "Slash"@,
        KeyCode::ShiftRight => "ShiftRight"@,
        KeyCode::ControlLeft => "ControlLeft"@,
        KeyCode::MetaLeft => "MetaLeft"@,
        KeyCode::AltLeft => "AltLeft"@,
        KeyCode::Space => "Space"@,
        KeyCode::AltRight => "AltRight"@,
        KeyCode::MetaRight => "MetaRight"@,
        KeyCode::ControlRight => "ControlRight"@,
        KeyCode::Printscreen => "Printscreen"@,
        KeyCode::ScrollLock => "ScrollLock"@,
        KeyCode::Pause => "Pause"@,
        KeyCode::Insert => "Insert"@,
        KeyCode::Home => "Home"@,
        KeyCode::PageUp => "PageUp"@,
        KeyCode::Delete => "Delete"@,
        KeyCode::End => "End"@,
        KeyCode::PageDown => "PageDown"@,
        KeyCode::UpArrow => "UpArrow"@,
        KeyCode::DownArrow => "DownArrow"@,
        KeyCode::LeftArrow => "LeftArrow"@,
        KeyCode::RightArrow => "RightArrow"@,
        KeyCode::MouseLeft => "MouseLeft"@,
        KeyCode::MouseRight => "MouseRight"@,
        KeyCode::MouseMiddle => "MouseMiddle"@,
    }
}

/// Every named key is recovered from its own virtual-key code.
pub proof fn lemma_windows_id_round_trip(k: KeyCode)
    requires
        !(k matches KeyCode::Unknown(_)),
    ensures
        key_of_windows_id(windows_id_of(k)) == k,
{
}

} // verus!

verus! {

/// What happened to a key: pressed, released, or something this library
/// does not track (pointer movement, double clicks, unclassifiable input).
#[derive(PartialEq, Eq, Structural, Clone, Copy, Debug)]
pub enum KeyOpt {
    Unknown,
    Up,
    Down,
    Move,
    DoubleClick,
}

/// One classified input event: which key, and whether it went down or up.
#[derive(PartialEq, Eq, Structural, Clone, Copy, Debug)]
pub struct InputKey {
    pub key: KeyCode,
    pub opt: KeyOpt,
}

impl Default for InputKey {
    /// An event that names no key and no action.
    fn default() -> (r: Self)
        ensures
            r.key == KeyCode::Unknown(0),
            r.opt == KeyOpt::Unknown,
    {
        InputKey { key: KeyCode::Unknown(0), opt: KeyOpt::Unknown }
    }
}

/// A screen position of the pointer, in pixels.
#[derive(PartialEq, Eq, Structural, Clone, Copy, Debug)]
pub struct CursorPos {
    pub x: i32,
    pub y: i32,
}

impl CursorPos {
    pub fn new(x: i32, y: i32) -> (r: Self)
        ensures
            r.x == x,
            r.y == y,
    {
        CursorPos { x, y }
    }
}

} // verus!
