use just_input::input::{
    ascii_to_vk, ascii_to_vk_en, ascii_to_vk_ru, batch_accepted, send_unit, typing_steps,
    KeyInput, Layout, TypeError, TypingStep, KEYEVENTF_KEYUP, KEYEVENTF_UNICODE, VK_OEM_2,
    VK_OEM_7, VK_RETURN, VK_SHIFT,
};
use just_input::text::{prepare_text, InputUnit};
use just_input::timing::Span;

fn down(vk: u16) -> KeyInput {
    KeyInput { vk, scan: 0, flags: 0 }
}

fn up(vk: u16) -> KeyInput {
    KeyInput { vk, scan: 0, flags: KEYEVENTF_KEYUP }
}

fn unicode_batch(cu: u16) -> Vec<KeyInput> {
    vec![
        KeyInput { vk: 0, scan: cu, flags: KEYEVENTF_UNICODE },
        KeyInput { vk: 0, scan: cu, flags: KEYEVENTF_UNICODE | KEYEVENTF_KEYUP },
    ]
}

#[test]
fn lowercase_letter_is_its_key_without_shift() {
    let unit = InputUnit::Unicode(vec!['a' as u16]);
    assert_eq!(send_unit(&unit, Layout::EnUs), vec![vec![down(0x41), up(0x41)]]);
    assert_eq!(send_unit(&unit, Layout::RuQwerty), vec![vec![down(0x41), up(0x41)]]);
}

#[test]
fn capital_letter_holds_shift_around_the_key() {
    let unit = InputUnit::Unicode(vec!['Q' as u16]);
    assert_eq!(
        send_unit(&unit, Layout::EnUs),
        vec![vec![down(VK_SHIFT), down(0x51), up(0x51), up(VK_SHIFT)]]
    );
}

#[test]
fn enter_is_the_return_key() {
    assert_eq!(
        send_unit(&InputUnit::Enter, Layout::RuQwerty),
        vec![vec![down(VK_RETURN), up(VK_RETURN)]]
    );
}

#[test]
fn ascii_without_a_russian_key_falls_back_to_unicode() {
    let unit = InputUnit::Unicode(vec!['#' as u16]);
    assert_eq!(send_unit(&unit, Layout::RuQwerty), vec![unicode_batch('#' as u16)]);
    assert_eq!(
        send_unit(&unit, Layout::EnUs),
        vec![vec![down(VK_SHIFT), down(0x33), up(0x33), up(VK_SHIFT)]]
    );
}

#[test]
fn russian_punctuation_uses_russian_keys() {
    assert_eq!(ascii_to_vk_ru('.'), Some((VK_OEM_2, false)));
    assert_eq!(ascii_to_vk_ru(','), Some((VK_OEM_2, true)));
    assert_eq!(ascii_to_vk_ru('"'), Some((0x32, true)));
    assert_eq!(ascii_to_vk_en('"'), Some((VK_OEM_7, true)));
    assert_eq!(ascii_to_vk('"', Layout::RuQwerty), Some((0x32, true)));
}

#[test]
fn emoji_is_two_unicode_batches_on_every_layout() {
    let unit = InputUnit::Unicode(vec![0xD83D, 0xDE42]);
    let expected = vec![unicode_batch(0xD83D), unicode_batch(0xDE42)];
    assert_eq!(send_unit(&unit, Layout::EnUs), expected);
    assert_eq!(send_unit(&unit, Layout::RuQwerty), expected);
}

#[test]
fn cyrillic_is_unicode_on_every_layout() {
    let unit = InputUnit::Unicode(vec!['Ж' as u16]);
    assert_eq!(send_unit(&unit, Layout::RuQwerty), vec![unicode_batch('Ж' as u16)]);
    assert_eq!(send_unit(&unit, Layout::EnUs), vec![unicode_batch('Ж' as u16)]);
}

#[test]
fn us_layout_covers_printable_ascii_without_collisions() {
    let mut seen = Vec::new();
    for code in 0x20u8..=0x7E {
        let key = ascii_to_vk_en(code as char).expect("every printable character has a key");
        assert!(!seen.contains(&key));
        seen.push(key);
    }
    assert_eq!(ascii_to_vk_en('\t'), None);
}

#[test]
fn russian_layout_has_no_collisions() {
    let mut seen = Vec::new();
    for code in 0x20u8..=0x7E {
        if let Some(key) = ascii_to_vk_ru(code as char) {
            assert!(!seen.contains(&key));
            seen.push(key);
        }
    }
    assert_eq!(ascii_to_vk_ru('@'), None);
}

#[test]
fn every_batch_releases_what_it_presses() {
    for text in ["aZ{#\r\n🙂Ж"] {
        for layout in [Layout::EnUs, Layout::RuQwerty] {
            for unit in prepare_text(text) {
                for batch in send_unit(&unit, layout) {
                    let n = batch.len();
                    assert!(n > 0 && n % 2 == 0);
                    for i in 0..n / 2 {
                        assert_eq!(batch[i].flags & KEYEVENTF_KEYUP, 0);
                        assert_eq!(
                            batch[n - 1 - i],
                            KeyInput { flags: batch[i].flags | KEYEVENTF_KEYUP, ..batch[i] }
                        );
                    }
                }
            }
        }
    }
}

#[test]
fn steps_pause_after_each_unit() {
    let interval = Span::from_millis(25);
    let steps = typing_steps("ab\n", interval, Layout::EnUs);
    assert_eq!(steps.len(), 6);
    let pauses = steps.iter().filter(|s| matches!(s, TypingStep::Pause(d) if *d == interval)).count();
    assert_eq!(pauses, 3);
    match &steps[0] {
        TypingStep::Submit(batch) => assert_eq!(batch, &vec![down(0x41), up(0x41)]),
        TypingStep::Pause(_) => panic!("expected a batch first"),
    }
}

#[test]
fn zero_interval_has_no_pauses() {
    let steps = typing_steps("a🙂", Span::from_millis(0), Layout::EnUs);
    assert_eq!(steps.len(), 3);
    assert!(steps.iter().all(|s| matches!(s, TypingStep::Submit(_))));
}

#[test]
fn batch_is_accepted_only_when_sent_whole() {
    let batch = vec![down(0x41), up(0x41)];
    assert!(batch_accepted(2, &batch));
    assert!(!batch_accepted(1, &batch));
    assert!(!batch_accepted(0, &batch));
}

#[test]
fn type_error_messages() {
    assert_eq!(
        TypeError::UnsupportedPlatform.message(),
        "typing is only implemented on Windows"
    );
    assert_eq!(
        TypeError::SendFailed("Access is denied.".to_string()).message(),
        "failed to send keyboard input: Access is denied."
    );
}

#[test]
fn default_layout_is_us() {
    assert_eq!(Layout::default(), Layout::EnUs);
}
