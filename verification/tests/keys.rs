use key_chord::virtual_key::{CursorPos, InputKey, KeyCode, KeyOpt};

#[test]
fn named_keys_round_trip_through_their_codes() {
    let keys = vec![
        KeyCode::Escape,
        KeyCode::F1,
        KeyCode::F12,
        KeyCode::Num0,
        KeyCode::KeyA,
        KeyCode::KeyK,
        KeyCode::KeyC,
        KeyCode::Space,
        KeyCode::ControlLeft,
        KeyCode::MetaRight,
        KeyCode::PageDown,
        KeyCode::MouseLeft,
        KeyCode::MouseMiddle,
    ];
    for k in keys {
        assert_eq!(KeyCode::from_windows_id(k.to_windows_id()), k);
    }
}

#[test]
fn known_codes_translate_to_their_keys() {
    assert_eq!(KeyCode::from_windows_id(0x1B), KeyCode::Escape);
    assert_eq!(KeyCode::from_windows_id(0x4B), KeyCode::KeyK);
    assert_eq!(KeyCode::from_windows_id(0x43), KeyCode::KeyC);
    assert_eq!(KeyCode::from_windows_id(0xA2), KeyCode::ControlLeft);
    assert_eq!(KeyCode::from_windows_id(0x01), KeyCode::MouseLeft);
    assert_eq!(KeyCode::from_windows_id(0x20), KeyCode::Space);
}

#[test]
fn known_keys_translate_to_their_codes() {
    assert_eq!(KeyCode::Escape.to_windows_id(), 0x1B);
    assert_eq!(KeyCode::KeyK.to_windows_id(), 0x4B);
    assert_eq!(KeyCode::Backquote.to_windows_id(), 0xC0);
    assert_eq!(KeyCode::MouseMiddle.to_windows_id(), 0x04);
}

#[test]
fn unknown_codes_are_kept_as_they_are() {
    assert_eq!(KeyCode::from_windows_id(0xFF), KeyCode::Unknown(0xFF));
    assert_eq!(KeyCode::Unknown(7).to_windows_id(), 7);
    // a code that names a key is never an unknown
    assert_ne!(KeyCode::from_windows_id(0x1B), KeyCode::Unknown(0x1B));
}

#[test]
fn key_names() {
    assert_eq!(KeyCode::Escape.to_str(), "Escape");
    assert_eq!(KeyCode::KeyA.to_str(), "KeyA");
    assert_eq!(KeyCode::MouseMiddle.to_str(), "MouseMiddle");
    assert_eq!(KeyCode::Unknown(99).to_str(), "Unknown");
    assert_eq!(KeyCode::MetaLeft.to_str(), "MetaLeft");
}

#[test]
fn default_input_key_names_nothing() {
    let e = InputKey::default();
    assert_eq!(e.key, KeyCode::Unknown(0));
    assert_eq!(e.opt, KeyOpt::Unknown);
}

#[test]
fn cursor_pos_holds_its_coordinates() {
    let p = CursorPos::new(-3, 40);
    assert_eq!(p.x, -3);
    assert_eq!(p.y, 40);
    assert_eq!(p, CursorPos { x: -3, y: 40 });
}
