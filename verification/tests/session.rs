use just_input::hotkey::HotkeyError;
use just_input::session::{AppState, HotkeyToggle, JobState, UiMessage};

fn with_text(text: &str) -> AppState {
    let mut state = AppState::new();
    state.text = text.to_string();
    state
}

#[test]
fn starts_ready() {
    let state = AppState::new();
    assert_eq!(state.status, "Ready");
    assert_eq!(state.job, JobState::Idle);
    assert_eq!(state.interval_ms, 10);
    assert!(state.type_enabled());
    assert!(!state.needs_repaint());
}

#[test]
fn nothing_to_type_is_refused() {
    let mut state = AppState::new();
    assert!(!state.schedule_type_after("3.0"));
    assert_eq!(state.status, "Nothing to type");
    assert_eq!(state.job, JobState::Idle);
}

#[test]
fn one_job_at_a_time() {
    let mut state = with_text("hello");
    assert!(state.schedule_type_after("3.0"));
    assert_eq!(state.status, "Typing in 3.0s");
    assert_eq!(state.job, JobState::Scheduled);
    assert!(!state.schedule_hotkey_type("0.2"));
    assert_eq!(state.status, "Typing is already scheduled");
    state.receive_message(UiMessage::TypingStarted);
    assert!(!state.schedule_type_after("3.0"));
    assert_eq!(state.status, "Typing is already running");
    assert_eq!(state.job, JobState::Typing);
}

#[test]
fn full_run_ends_done() {
    let mut state = with_text("hello");
    assert!(state.schedule_type_after("1.0"));
    state.update_pending_status("0.4");
    assert_eq!(state.status, "Typing in 0.4s");
    state.receive_message(UiMessage::TypingStarted);
    assert_eq!(state.status, "Typing");
    state.update_pending_status("0.0");
    assert_eq!(state.status, "Typing");
    state.receive_message(UiMessage::TypingFinished(Ok(())));
    assert_eq!(state.status, "Done");
    assert_eq!(state.job, JobState::Idle);
}

#[test]
fn failed_run_shows_error() {
    let mut state = with_text("hello");
    assert!(state.schedule_type_after("1.0"));
    state.receive_message(UiMessage::TypingFinished(Err("boom".to_string())));
    assert_eq!(state.status, "boom");
    assert_eq!(state.job, JobState::Idle);
}

#[test]
fn cancel_only_drops_a_scheduled_job() {
    let mut state = with_text("hello");
    assert!(!state.cancel_pending());
    assert_eq!(state.status, "Ready");
    assert!(state.schedule_type_after("3.0"));
    assert!(state.cancel_enabled());
    assert!(state.cancel_pending());
    assert_eq!(state.status, "Cancelled");
    assert_eq!(state.job, JobState::Idle);
    assert!(state.schedule_type_after("3.0"));
    state.receive_message(UiMessage::TypingStarted);
    assert!(!state.cancel_pending());
    assert_eq!(state.job, JobState::Typing);
}

#[test]
fn hotkey_schedules_with_its_own_status() {
    let mut state = with_text("hello");
    assert!(state.schedule_hotkey_type("0.2"));
    assert_eq!(state.status, "Typing from hotkey");
    assert_eq!(state.job, JobState::Scheduled);
}

#[test]
fn hotkey_toggle_round_trip() {
    let mut state = AppState::new();
    assert_eq!(state.toggle_hotkey(), HotkeyToggle::Register);
    state.finish_hotkey_registration(Ok(()));
    assert!(state.hotkey_armed);
    assert_eq!(state.status, "Ctrl+Alt+J armed");
    assert!(state.needs_repaint());
    assert_eq!(state.toggle_hotkey(), HotkeyToggle::Disarm);
    assert!(!state.hotkey_armed);
    assert_eq!(state.status, "Hotkey off");
}

#[test]
fn failed_hotkey_registration_shows_error() {
    let mut state = AppState::new();
    assert_eq!(state.toggle_hotkey(), HotkeyToggle::Register);
    state.finish_hotkey_registration(Err(HotkeyError::UnsupportedPlatform));
    assert!(!state.hotkey_armed);
    assert_eq!(state.status, "global hotkey is only implemented on Windows");
}
