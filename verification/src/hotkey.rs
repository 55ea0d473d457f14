//! The global hotkey: its keys, how its trigger is recognised, and its
//! errors.
use vstd::prelude::*;

verus! {

/// How the hotkey is shown to the user.
pub const HOTKEY_LABEL: &'static str = "Ctrl+Alt+J";

/// The identifier the hotkey is registered under.
pub const HOTKEY_ID: i32 = 1;

/// Windows modifier flag for Alt.
pub const MOD_ALT: u32 = 0x1;
/// Windows modifier flag for Ctrl.
pub const MOD_CONTROL: u32 = 0x2;
/// Windows modifier flag: holding the keys down does not repeat the trigger.
pub const MOD_NOREPEAT: u32 = 0x4000;
/// Windows virtual-key code of the J key.
pub const VK_J: u32 = 0x4A;
/// The window message that reports a pressed hotkey.
pub const WM_HOTKEY: u32 = 0x0312;

/// The modifiers of the hotkey: Ctrl and Alt, without auto-repeat.
pub fn hotkey_modifiers() -> (r: u32)
    ensures
        r == MOD_CONTROL | MOD_ALT | MOD_NOREPEAT,
{
    MOD_CONTROL | MOD_ALT | MOD_NOREPEAT
}

/// Whether a window message is a press of this program's hotkey.
pub fn is_hotkey_trigger(message: u32, wparam: usize) -> (r: bool)
    ensures
        r == (message == WM_HOTKEY && wparam == HOTKEY_ID),
{
    message == WM_HOTKEY && wparam == HOTKEY_ID as usize
}

/// Why the hotkey could not be armed.
#[derive(Debug)]
pub enum HotkeyError {
    UnsupportedPlatform,
    /// The system refused the registration; the text is the system's
    /// description of its last error.
    RegisterFailed(String),
    StartupFailed,
}

impl HotkeyError {
    /// The message for this error.
    pub open spec fn text(&self) -> Seq<char> {
        match self {
            HotkeyError::UnsupportedPlatform => "global hotkey is only implemented on Windows"@,
            HotkeyError::RegisterFailed(e) => "failed to register hotkey: "@ + e@,
            HotkeyError::StartupFailed => "hotkey thread did not report startup status"@,
        }
    }

    /// The message shown for this error.
    pub fn message(&self) -> (r: String)
        ensures
            r@ == self.text(),
    {
        match self {
            HotkeyError::UnsupportedPlatform => String::from_str(
                "global hotkey is only implemented on Windows",
            ),
            HotkeyError::RegisterFailed(e) => {
                let mut m = String::from_str("failed to register hotkey: ");
                m.append(e.as_str());
                m
            },
            HotkeyError::StartupFailed => String::from_str(
                "hotkey thread did not report startup status",
            ),
        }
    }
}

} // verus!
