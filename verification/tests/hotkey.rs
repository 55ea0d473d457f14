use just_input::hotkey::{hotkey_modifiers, is_hotkey_trigger, HotkeyError, HOTKEY_LABEL, WM_HOTKEY};

#[test]
fn hotkey_is_ctrl_alt_without_repeat() {
    assert_eq!(hotkey_modifiers(), 0x2 | 0x1 | 0x4000);
    assert_eq!(HOTKEY_LABEL, "Ctrl+Alt+J");
}

#[test]
fn only_our_hotkey_message_triggers() {
    assert!(is_hotkey_trigger(WM_HOTKEY, 1));
    assert!(!is_hotkey_trigger(WM_HOTKEY, 2));
    assert!(!is_hotkey_trigger(0x0100, 1));
}

#[test]
fn hotkey_error_messages() {
    assert_eq!(
        HotkeyError::UnsupportedPlatform.message(),
        "global hotkey is only implemented on Windows"
    );
    assert_eq!(
        HotkeyError::RegisterFailed("in use".to_string()).message(),
        "failed to register hotkey: in use"
    );
    assert_eq!(
        HotkeyError::StartupFailed.message(),
        "hotkey thread did not report startup status"
    );
}
