use just_input::text::{encode_utf16, prepare_text, InputUnit};

fn unicode(ch: char) -> InputUnit {
    let mut buf = [0_u16; 2];
    InputUnit::Unicode(ch.encode_utf16(&mut buf).to_vec())
}

#[test]
fn prepares_empty_text() {
    assert_eq!(prepare_text(""), Vec::<InputUnit>::new());
}

#[test]
fn normalizes_newlines_to_enter() {
    assert_eq!(
        prepare_text("a\r\nb\nc\rd"),
        vec![
            unicode('a'),
            InputUnit::Enter,
            unicode('b'),
            InputUnit::Enter,
            unicode('c'),
            InputUnit::Enter,
            unicode('d'),
        ]
    );
}

#[test]
fn keeps_unicode_independent_of_keyboard_layout() {
    assert_eq!(
        prepare_text("Привет"),
        "Привет".chars().map(unicode).collect::<Vec<_>>()
    );
}

#[test]
fn keeps_emoji_as_one_surrogate_pair_unit() {
    assert_eq!(
        prepare_text("🙂"),
        vec![InputUnit::Unicode(vec![0xD83D, 0xDE42])]
    );
}

#[test]
fn encodes_like_the_standard_library() {
    for ch in ['a', '\u{0}', 'é', 'Ж', '\u{FFFF}', '\u{10000}', '🙂', '\u{10FFFF}'] {
        let mut buf = [0_u16; 2];
        assert_eq!(encode_utf16(ch), ch.encode_utf16(&mut buf).to_vec());
    }
}

#[test]
fn surrogate_pair_decodes_back() {
    let units = encode_utf16('🙂');
    assert_eq!(units.len(), 2);
    let value = 0x10000 + ((units[0] as u32 - 0xD800) << 10) + (units[1] as u32 - 0xDC00);
    assert_eq!(value, '🙂' as u32);
}

#[test]
fn crlf_split_across_texts_is_two_enters() {
    assert_eq!(prepare_text("\r"), vec![InputUnit::Enter]);
    assert_eq!(prepare_text("\n"), vec![InputUnit::Enter]);
    assert_eq!(prepare_text("\r\n"), vec![InputUnit::Enter]);
}

#[test]
fn joined_texts_give_joined_units() {
    let mut joined = prepare_text("ab\r");
    joined.extend(prepare_text("x\ny"));
    assert_eq!(prepare_text("ab\rx\ny"), joined);
}

#[test]
fn one_enter_per_line_break() {
    let units = prepare_text("\r\r\n\n\n\r");
    assert_eq!(units, vec![InputUnit::Enter; 5]);
}

#[test]
fn one_unit_per_character_without_line_breaks() {
    let text = "a é 🙂 Ж";
    assert_eq!(prepare_text(text).len(), text.chars().count());
}
