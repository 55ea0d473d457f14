//! Keyboard input: which key strokes type an input unit on a given keyboard
//! layout, and the steps of a whole typing run.
use vstd::prelude::*;

use crate::text::{prepare_text, unit_views, units_of, InputUnit, UnitView};
use crate::timing::Span;

verus! {

/// Windows virtual-key code of the space bar.
pub const VK_SPACE: u16 = 0x20;
/// Windows virtual-key code of Enter.
pub const VK_RETURN: u16 = 0x0D;
/// Windows virtual-key code of Shift.
pub const VK_SHIFT: u16 = 0x10;
/// Windows virtual-key code of the `;:` key on a US keyboard.
pub const VK_OEM_1: u16 = 0xBA;
/// Windows virtual-key code of the `=+` key.
pub const VK_OEM_PLUS: u16 = 0xBB;
/// Windows virtual-key code of the `,<` key.
pub const VK_OEM_COMMA: u16 = 0xBC;
/// Windows virtual-key code of the `-_` key.
pub const VK_OEM_MINUS: u16 = 0xBD;
/// Windows virtual-key code of the `.>` key.
pub const VK_OEM_PERIOD: u16 = 0xBE;
/// Windows virtual-key code of the `/?` key on a US keyboard.
pub const VK_OEM_2: u16 = 0xBF;
/// Windows virtual-key code of the `` `~ `` key on a US keyboard.
pub const VK_OEM_3: u16 = 0xC0;
/// Windows virtual-key code of the `[{` key on a US keyboard.
pub const VK_OEM_4: u16 = 0xDB;
/// Windows virtual-key code of the `\|` key on a US keyboard.
pub const VK_OEM_5: u16 = 0xDC;
/// Windows virtual-key code of the `]}` key on a US keyboard.
pub const VK_OEM_6: u16 = 0xDD;
/// Windows virtual-key code of the `'"` key on a US keyboard.
pub const VK_OEM_7: u16 = 0xDE;
/// Keyboard event flag: the key is being released.
pub const KEYEVENTF_KEYUP: u32 = 0x2;
/// Keyboard event flag: the event carries a UTF-16 code unit, not a key.
pub const KEYEVENTF_UNICODE: u32 = 0x4;

/// The keyboard layout that the target window is assumed to use.
#[derive(Debug, Clone, Copy, PartialEq, Eq, Default)]
pub enum Layout {
    #[default]
    EnUs,
    RuQwerty,
}

/// Why typing failed.
#[derive(Debug)]
pub enum TypeError {
    UnsupportedPlatform,
    /// The system did not take a whole batch of input; the text is the
    /// system's description of its last error.
    SendFailed(String),
}

impl TypeError {
    /// The message shown for this error.
    pub fn message(&self) -> (r: String)
        ensures
            r@ == match self {
                TypeError::UnsupportedPlatform => "typing is only implemented on Windows"@,
                TypeError::SendFailed(e) => "failed to send keyboard input: "@ + e@,
            },
    {
        match self {
            TypeError::UnsupportedPlatform => String::from_str("typing is only implemented on Windows"),
            TypeError::SendFailed(e) => {
                let mut m = String::from_str("failed to send keyboard input: ");
                m.append(e.as_str());
                m
            },
        }
    }
}

/// One keyboard event handed to the system: a virtual key, or a UTF-16 code
/// unit in `scan` when the flags hold [`KEYEVENTF_UNICODE`].
#[derive(Clone, Copy, Debug, PartialEq, Eq)]
pub struct KeyInput {
    pub vk: u16,
    pub scan: u16,
    pub flags: u32,
}

/// The key on a US keyboard, and whether Shift is held, that types an
/// ASCII character; `None` for characters that no key types.
pub open spec fn en_key(ch: char) -> Option<(u16, bool)> {
    match ch {
        ' ' => Some((VK_SPACE, false)),
        '!' => Some((0x31u16, true)),
        '"' => Some((VK_OEM_7, true)),
        '#' => Some((0x33u16, true)),
        '$' => Some((0x34u16, true)),
        '%' => Some((0x35u16, true)),
        '&' => Some((0x37u16, true)),
        '\'' => Some((VK_OEM_7, false)),
        '(' => Some((0x39u16, true)),
        ')' => Some((0x30u16, true)),
        '*' => Some((0x38u16, true)),
        '+' => Some((VK_OEM_PLUS, true)),
        ',' => Some((VK_OEM_COMMA, false)),
        '-' => Some((VK_OEM_MINUS, false)),
        '.' => Some((VK_OEM_PERIOD, false)),
        '/' => Some((VK_OEM_2, false)),
        '0'..='9' => Some((ch as u16, false)),
        ':' => Some((VK_OEM_1, true)),
        ';' => Some((VK_OEM_1, false)),
        '<' => Some((VK_OEM_COMMA, true)),
        '=' => Some((VK_OEM_PLUS, false)),
        '>' => Some((VK_OEM_PERIOD, true)),
        '?' => Some((VK_OEM_2, true)),
        '@' => Some((0x32u16, true)),
        'A'..='Z' => Some((ch as u16, true)),
        '[' => Some((VK_OEM_4, false)),
        '\\' => Some((VK_OEM_5, false)),
        ']' => Some((VK_OEM_6, false)),
        '^' => Some((0x36u16, true)),
        '_' => Some((VK_OEM_MINUS, true)),
        '`' => Some((VK_OEM_3, false)),
        'a'..='z' => Some(((ch as u16 - 0x20) as u16, false)),
        '{' => Some((VK_OEM_4, true)),
        '|' => Some((VK_OEM_5, true)),
        '}' => Some((VK_OEM_6, true)),
        '~' => Some((VK_OEM_3, true)),
        _ => None,
    }
}

/// The key on a Russian (ЙЦУКЕН) keyboard, and whether Shift is held, that
/// types an ASCII character; `None` for characters that layout has no key
/// for (those are typed as Unicode instead).
pub open spec fn ru_key(ch: char) -> Option<(u16, bool)> {
    match ch {
        ' ' => Some((VK_SPACE, false)),
        '!' => Some((0x31u16, true)),
        '%' => Some((0x35u16, true)),
        '(' => Some((0x39u16, true)),
        ')' => Some((0x30u16, true)),
        '*' => Some((0x38u16, true)),
        '-' => Some((VK_OEM_MINUS, false)),
        '_' => Some((VK_OEM_MINUS, true)),
        '=' => Some((VK_OEM_PLUS, false)),
        '+' => Some((VK_OEM_PLUS, true)),
        '\\' => Some((VK_OEM_5, false)),
        '0'..='9' => Some((ch as u16, false)),
        'A'..='Z' => Some((ch as u16, true)),
        'a'..='z' => Some(((ch as u16 - 0x20) as u16, false)),
        '"' => Some((0x32u16, true)),
        ';' => Some((0x34u16, true)),
        ':' => Some((0x36u16, true)),
        '?' => Some((0x37u16, true)),
        '.' => Some((VK_OEM_2, false)),
        ',' => Some((VK_OEM_2, true)),
        '/' => Some((VK_OEM_5, true)),
        _ => None,
    }
}

/// The key and Shift state that types `ch` on `layout`.
pub open spec fn layout_key(ch: char, layout: Layout) -> Option<(u16, bool)> {
    match layout {
        Layout::EnUs => en_key(ch),
        Layout::RuQwerty => ru_key(ch),
    }
}

/// The key that types `ch` on a US keyboard, with its Shift state.
pub fn ascii_to_vk_en(ch: char) -> (r: Option<(u16, bool)>)
    ensures
        r == en_key(ch),
{
    match ch {
        ' ' => Some((VK_SPACE, false)),
        '!' => Some((0x31, true)),
        '"' => Some((VK_OEM_7, true)),
        '#' => Some((0x33, true)),
        '$' => Some((0x34, true)),
        '%' => Some((0x35, true)),
        '&' => Some((0x37, true)),
        '\'' => Some((VK_OEM_7, false)),
        '(' => Some((0x39, true)),
        ')' => Some((0x30, true)),
        '*' => Some((0x38, true)),
        '+' => Some((VK_OEM_PLUS, true)),
        ',' => Some((VK_OEM_COMMA, false)),
        '-' => Some((VK_OEM_MINUS, false)),
        '.' => Some((VK_OEM_PERIOD, false)),
        '/' => Some((VK_OEM_2, false)),
        '0'..='9' => Some((ch as u16, false)),
        ':' => Some((VK_OEM_1, true)),
        ';' => Some((VK_OEM_1, false)),
        '<' => Some((VK_OEM_COMMA, true)),
        '=' => Some((VK_OEM_PLUS, false)),
        '>' => Some((VK_OEM_PERIOD, true)),
        '?' => Some((VK_OEM_2, true)),
        '@' => Some((0x32, true)),
        'A'..='Z' => Some((ch as u16, true)),
        '[' => Some((VK_OEM_4, false)),
        '\\' => Some((VK_OEM_5, false)),
        ']' => Some((VK_OEM_6, false)),
        '^' => Some((0x36, true)),
        '_' => Some((VK_OEM_MINUS, true)),
        '`' => Some((VK_OEM_3, false)),
        'a'..='z' => Some((ch as u16 - 0x20, false)),
        '{' => Some((VK_OEM_4, true)),
        '|' => Some((VK_OEM_5, true)),
        '}' => Some((VK_OEM_6, true)),
        '~' => Some((VK_OEM_3, true)),
        _ => None,
    }
}

/// The key that types `ch` on a Russian keyboard, with its Shift state.
pub fn ascii_to_vk_ru(ch: char) -> (r: Option<(u16, bool)>)
    ensures
        r == ru_key(ch),
{
    match ch {
        ' ' => Some((VK_SPACE, false)),
        '!' => Some((0x31, true)),
        '%' => Some((0x35, true)),
        '(' => Some((0x39, true)),
        ')' => Some((0x30, true)),
        '*' => Some((0x38, true)),
        '-' => Some((VK_OEM_MINUS, false)),
        '_' => Some((VK_OEM_MINUS, true)),
        '=' => Some((VK_OEM_PLUS, false)),
        '+' => Some((VK_OEM_PLUS, true)),
        '\\' => Some((VK_OEM_5, false)),
        '0'..='9' => Some((ch as u16, false)),
        'A'..='Z' => Some((ch as u16, true)),
        'a'..='z' => Some((ch as u16 - 0x20, false)),
        '"' => Some((0x32, true)),
        ';' => Some((0x34, true)),
        ':' => Some((0x36, true)),
        '?' => Some((0x37, true)),
        '.' => Some((VK_OEM_2, false)),
        ',' => Some((VK_OEM_2, true)),
        '/' => Some((VK_OEM_5, true)),
        _ => None,
    }
}

/// The key that types `ch` on `layout`, with its Shift state.
pub fn ascii_to_vk(ch: char, layout: Layout) -> (r: Option<(u16, bool)>)
    ensures
        r == layout_key(ch, layout),
{
    match layout {
        Layout::EnUs => ascii_to_vk_en(ch),
        Layout::RuQwerty => ascii_to_vk_ru(ch),
    }
}

/// Pressing a virtual key.
pub open spec fn key_down(vk: u16) -> KeyInput {
    KeyInput { vk, scan: 0, flags: 0 }
}

/// Releasing a virtual key.
pub open spec fn key_up(vk: u16) -> KeyInput {
    KeyInput { vk, scan: 0, flags: KEYEVENTF_KEYUP }
}

/// Typing a key, with Shift held around it when `shift` is set.
pub open spec fn vk_char_batch(vk: u16, shift: bool) -> Seq<KeyInput> {
    if shift {
        seq![key_down(VK_SHIFT), key_down(vk), key_up(vk), key_up(VK_SHIFT)]
    } else {
        seq![key_down(vk), key_up(vk)]
    }
}

/// Typing one UTF-16 code unit directly, whatever the layout.
pub open spec fn unicode_batch(code_unit: u16) -> Seq<KeyInput> {
    seq![
        KeyInput { vk: 0, scan: code_unit, flags: KEYEVENTF_UNICODE },
        KeyInput { vk: 0, scan: code_unit, flags: KEYEVENTF_UNICODE | KEYEVENTF_KEYUP },
    ]
}

/// Pressing and releasing Enter.
pub open spec fn enter_batch() -> Seq<KeyInput> {
    vk_char_batch(VK_RETURN, false)
}

/// The batches of keyboard events that type one unit, each batch handed to
/// the system at once. A single ASCII code unit that the layout has a key
/// for is typed with that key; any other character is typed code unit by
/// code unit as Unicode; Enter is the Enter key.
pub open spec fn unit_batches(unit: UnitView, layout: Layout) -> Seq<Seq<KeyInput>> {
    match unit {
        UnitView::Enter => seq![enter_batch()],
        UnitView::Unicode(code_units) => {
            if code_units.len() == 1 && code_units[0] < 128 && layout_key(
                (code_units[0] as u8) as char,
                layout,
            ) is Some {
                let key = layout_key((code_units[0] as u8) as char, layout)->Some_0;
                seq![vk_char_batch(key.0, key.1)]
            } else {
                code_units.map_values(|cu: u16| unicode_batch(cu))
            }
        },
    }
}

/// The views of a sequence of batches.
pub open spec fn batch_views(batches: Seq<Vec<KeyInput>>) -> Seq<Seq<KeyInput>> {
    batches.map_values(|b: Vec<KeyInput>| b@)
}

fn send_vk_char(vk: u16, shift: bool) -> (r: Vec<KeyInput>)
    ensures
        r@ == vk_char_batch(vk, shift),
{
    let mut inputs: Vec<KeyInput> = Vec::new();
    if shift {
        inputs.push(KeyInput { vk: VK_SHIFT, scan: 0, flags: 0 });
        inputs.push(KeyInput { vk, scan: 0, flags: 0 });
        inputs.push(KeyInput { vk, scan: 0, flags: KEYEVENTF_KEYUP });
        inputs.push(KeyInput { vk: VK_SHIFT, scan: 0, flags: KEYEVENTF_KEYUP });
    } else {
        inputs.push(KeyInput { vk, scan: 0, flags: 0 });
        inputs.push(KeyInput { vk, scan: 0, flags: KEYEVENTF_KEYUP });
    }
    assert(inputs@ =~= vk_char_batch(vk, shift));
    inputs
}

fn send_unicode(code_unit: u16) -> (r: Vec<KeyInput>)
    ensures
        r@ == unicode_batch(code_unit),
{
    let mut inputs: Vec<KeyInput> = Vec::new();
    inputs.push(KeyInput { vk: 0, scan: code_unit, flags: KEYEVENTF_UNICODE });
    inputs.push(
        KeyInput { vk: 0, scan: code_unit, flags: KEYEVENTF_UNICODE | KEYEVENTF_KEYUP },
    );
    assert(inputs@ =~= unicode_batch(code_unit));
    inputs
}

fn send_enter() -> (r: Vec<KeyInput>)
    ensures
        r@ == enter_batch(),
{
    send_vk_char(VK_RETURN, false)
}

/// The batches of keyboard events that type `unit` on `layout`, in the
/// order they are handed to the system.
pub fn send_unit(unit: &InputUnit, layout: Layout) -> (batches: Vec<Vec<KeyInput>>)
    ensures
        batch_views(batches@) == unit_batches(unit@, layout),
{
    let mut batches: Vec<Vec<KeyInput>> = Vec::new();
    match unit {
        InputUnit::Unicode(code_units) => {
            if code_units.len() == 1 && code_units[0] < 128 {
                let ch = code_units[0] as u8 as char;
                if let Some((vk, shift)) = ascii_to_vk(ch, layout) {
                    batches.push(send_vk_char(vk, shift));
                    assert(batch_views(batches@) =~= unit_batches(unit@, layout));
                    return batches;
                }
            }
            let n: usize = code_units.len();
            for i in 0..n
                invariant
                    n == code_units@.len(),
                    batches@.len() == i,
                    forall|j: int|
                        0 <= j < i ==> #[trigger] batches@[j]@ == unicode_batch(code_units@[j]),
            {
                batches.push(send_unicode(code_units[i]));
            }
            assert(batch_views(batches@) =~= unit_batches(unit@, layout));
        },
        InputUnit::Enter => {
            batches.push(send_enter());
            assert(batch_views(batches@) =~= unit_batches(unit@, layout));
        },
    }
    batches
}

/// Whether the system took a whole batch: it reports how many events of
/// the batch it inserted.
pub fn batch_accepted(sent: u32, batch: &Vec<KeyInput>) -> (r: bool)
    ensures
        r == (sent as int == batch@.len()),
{
    sent as usize == batch.len()
}

/// One step of a typing run: hand a batch of events to the system, or wait.
pub enum TypingStep {
    Submit(Vec<KeyInput>),
    Pause(Span),
}

/// The mathematical value of a [`TypingStep`].
pub enum StepView {
    Submit(Seq<KeyInput>),
    Pause(Span),
}

impl View for TypingStep {
    type V = StepView;

    open spec fn view(&self) -> StepView {
        match self {
            TypingStep::Submit(b) => StepView::Submit(b@),
            TypingStep::Pause(d) => StepView::Pause(*d),
        }
    }
}

/// The views of a sequence of steps.
pub open spec fn step_views(steps: Seq<TypingStep>) -> Seq<StepView> {
    steps.map_values(|s: TypingStep| s@)
}

/// The steps that type one unit: its batches, then a pause of `interval`
/// unless the interval is empty.
pub open spec fn unit_steps(unit: UnitView, layout: Layout, interval: Span) -> Seq<StepView> {
    unit_batches(unit, layout).map_values(|b: Seq<KeyInput>| StepView::Submit(b)) + if interval.secs
        == 0 && interval.nanos == 0 {
        Seq::<StepView>::empty()
    } else {
        seq![StepView::Pause(interval)]
    }
}

/// The steps that type a sequence of units, unit after unit.
pub open spec fn steps_of(units: Seq<UnitView>, layout: Layout, interval: Span) -> Seq<StepView>
    decreases units.len(),
{
    if units.len() == 0 {
        seq![]
    } else {
        steps_of(units.drop_last(), layout, interval) + unit_steps(units.last(), layout, interval)
    }
}

/// The steps of typing `text` on `layout` with `interval` between units.
/// [`crate::run::TypingRun`] performs them in order and stops at the
/// first batch that the system does not take whole.
pub fn typing_steps(text: &str, interval: Span, layout: Layout) -> (steps: Vec<TypingStep>)
    ensures
        step_views(steps@) == steps_of(units_of(text@), layout, interval),
{
    let units = prepare_text(text);
    let ghost uv = unit_views(units@);
    let mut steps: Vec<TypingStep> = Vec::new();
    let n: usize = units.len();
    for i in 0..n
        invariant
            n == units@.len(),
            uv == unit_views(units@),
            uv == units_of(text@),
            step_views(steps@) == steps_of(uv.take(i as int), layout, interval),
    {
        let ghost before = step_views(steps@);
        let mut batches = send_unit(&units[i], layout);
        let m: usize = batches.len();
        let ghost bv = batch_views(batches@);
        assert(uv[i as int] == units@[i as int]@);
        assert(bv == unit_batches(uv[i as int], layout));
        let mut k: usize = 0;
        while k < m
            invariant
                0 <= k <= m,
                batches@.len() == m - k,
                bv.len() == m,
                forall|j: int| 0 <= j < m - k ==> #[trigger] batches@[j]@ == bv[j + k],
                step_views(steps@) == before + bv.take(k as int).map_values(
                    |b: Seq<KeyInput>| StepView::Submit(b),
                ),
            decreases m - k,
        {
            let ghost prev = batches@;
            let ghost old_steps = steps@;
            let b = batches.remove(0);
            let ghost bview = b@;
            steps.push(TypingStep::Submit(b));
            assert(step_views(steps@) =~= step_views(old_steps).push(StepView::Submit(bview)));
            k = k + 1;
            assert(prev[0]@ == bv[0 + (k - 1)]);
            assert(bview == bv[k - 1]);
            assert(bv.take(k as int) =~= bv.take(k - 1).push(bv[k - 1]));
            assert forall|j: int| 0 <= j < m - k implies #[trigger] batches@[j]@ == bv[j + k] by {
                assert(batches@[j] == prev[j + 1]);
            }
            assert(step_views(steps@) =~= before + bv.take(k as int).map_values(
                |b: Seq<KeyInput>| StepView::Submit(b),
            ));
        }
        assert(bv.take(m as int) =~= bv);
        assert(uv.take(i + 1).drop_last() =~= uv.take(i as int));
        assert(uv.take(i + 1).last() == uv[i as int]);
        let ghost mid = steps@;
        if !interval.is_zero() {
            steps.push(TypingStep::Pause(interval));
            assert(step_views(steps@) =~= step_views(mid).push(StepView::Pause(interval)));
        }
        assert(unit_steps(uv[i as int], layout, interval) =~= bv.map_values(
            |b: Seq<KeyInput>| StepView::Submit(b),
        ) + if interval.secs == 0 && interval.nanos == 0 {
            Seq::<StepView>::empty()
        } else {
            seq![StepView::Pause(interval)]
        });
        assert(step_views(steps@) =~= steps_of(uv.take(i + 1), layout, interval));
    }
    assert(uv.take(n as int) =~= uv);
    steps
}

/// On a US keyboard every printable ASCII character, space included, has
/// a key.
pub proof fn lemma_en_covers_printable_ascii(ch: char)
    requires
        ' ' <= ch <= '~',
    ensures
        en_key(ch) is Some,
{
}

/// On a US keyboard no two characters share a key and Shift state, so the
/// window receives the character that was meant.
pub proof fn lemma_en_key_injective(a: char, b: char)
    requires
        en_key(a) is Some,
        en_key(a) == en_key(b),
    ensures
        a == b,
{
}

/// On a Russian keyboard no two characters share a key and Shift state.
pub proof fn lemma_ru_key_injective(a: char, b: char)
    requires
        ru_key(a) is Some,
        ru_key(a) == ru_key(b),
    ensures
        a == b,
{
}

/// Latin letters, digits and the space bar are the same keys on both
/// layouts; capitals, and only they, hold Shift.
pub proof fn lemma_layouts_agree_on_letters_and_digits(ch: char)
    requires
        ch == ' ' || ('0' <= ch <= '9') || ('A' <= ch <= 'Z') || ('a' <= ch <= 'z'),
    ensures
        en_key(ch) is Some,
        ru_key(ch) == en_key(ch),
        en_key(ch)->Some_0.1 == ('A' <= ch <= 'Z'),
{
}

/// A character that is not a single ASCII code unit is typed the same way
/// whatever the layout: code unit by code unit as Unicode.
pub proof fn lemma_non_ascii_ignores_layout(code_units: Seq<u16>)
    requires
        !(code_units.len() == 1 && code_units[0] < 128),
    ensures
        unit_batches(UnitView::Unicode(code_units), Layout::EnUs) == unit_batches(
            UnitView::Unicode(code_units),
            Layout::RuQwerty,
        ),
        unit_batches(UnitView::Unicode(code_units), Layout::EnUs).len() == code_units.len(),
{
}

/// Every key a batch presses is released again, in reverse order, within
/// that same batch: no key, Shift included, stays held after a unit.
pub proof fn lemma_batches_release_every_key(unit: UnitView, layout: Layout)
    ensures
        forall|j: int|
            0 <= j < unit_batches(unit, layout).len() ==> {
                let b = #[trigger] unit_batches(unit, layout)[j];
                &&& b.len() > 0
                &&& b.len() % 2 == 0
                &&& forall|i: int|
                    0 <= i < b.len() / 2 ==> {
                        &&& #[trigger] b[i].flags & KEYEVENTF_KEYUP == 0
                        &&& b[b.len() - 1 - i] == KeyInput {
                            vk: b[i].vk,
                            scan: b[i].scan,
                            flags: b[i].flags | KEYEVENTF_KEYUP,
                        }
                    }
            },
{
    assert(0u32 & 2u32 == 0u32) by (bit_vector);
    assert(4u32 & 2u32 == 0u32) by (bit_vector);
    assert(0u32 | 2u32 == 2u32) by (bit_vector);
}

/// The character, as a code point, printed on a key of a US keyboard:
/// the lower legend without Shift, the upper one with it. Described key by
/// key, as a keyboard shows it.
pub open spec fn us_keycap(vk: u16, shift: bool) -> Option<u32> {
    if 0x30 <= vk <= 0x39 {
        if !shift {
            Some(vk as u32)
        } else if vk == 0x30 {
            Some(')' as u32)
        } else if vk == 0x31 {
            Some('!' as u32)
        } else if vk == 0x32 {
            Some('@' as u32)
        } else if vk == 0x33 {
            Some('#' as u32)
        } else if vk == 0x34 {
            Some('$' as u32)
        } else if vk == 0x35 {
            Some('%' as u32)
        } else if vk == 0x36 {
            Some('^' as u32)
        } else if vk == 0x37 {
            Some('&' as u32)
        } else if vk == 0x38 {
            Some('*' as u32)
        } else {
            Some('(' as u32)
        }
    } else if 0x41 <= vk <= 0x5A {
        if shift {
            Some(vk as u32)
        } else {
            Some((vk + 0x20) as u32)
        }
    } else if vk == VK_SPACE {
        if shift {
            None
        } else {
            Some(' ' as u32)
        }
    } else if vk == VK_OEM_1 {
        Some(if shift { ':' } else { ';' } as u32)
    } else if vk == VK_OEM_PLUS {
        Some(if shift { '+' } else { '=' } as u32)
    } else if vk == VK_OEM_COMMA {
        Some(if shift { '<' } else { ',' } as u32)
    } else if vk == VK_OEM_MINUS {
        Some(if shift { '_' } else { '-' } as u32)
    } else if vk == VK_OEM_PERIOD {
        Some(if shift { '>' } else { '.' } as u32)
    } else if vk == VK_OEM_2 {
        Some(if shift { '?' } else { '/' } as u32)
    } else if vk == VK_OEM_3 {
        Some(if shift { '~' } else { '`' } as u32)
    } else if vk == VK_OEM_4 {
        Some(if shift { '{' } else { '[' } as u32)
    } else if vk == VK_OEM_5 {
        Some(if shift { '|' } else { '\\' } as u32)
    } else if vk == VK_OEM_6 {
        Some(if shift { '}' } else { ']' } as u32)
    } else if vk == VK_OEM_7 {
        Some(if shift { '"' } else { '\'' } as u32)
    } else {
        None
    }
}

/// The character, as a code point, that a key types on a Russian keyboard,
/// for the keys that are not letter keys (the letter keys carry Cyrillic
/// letters there and are not listed).
pub open spec fn ru_keycap(vk: u16, shift: bool) -> Option<u32> {
    if 0x30 <= vk <= 0x39 {
        if !shift {
            Some(vk as u32)
        } else if vk == 0x30 {
            Some(')' as u32)
        } else if vk == 0x31 {
            Some('!' as u32)
        } else if vk == 0x32 {
            Some('"' as u32)
        } else if vk == 0x33 {
            Some('№' as u32)
        } else if vk == 0x34 {
            Some(';' as u32)
        } else if vk == 0x35 {
            Some('%' as u32)
        } else if vk == 0x36 {
            Some(':' as u32)
        } else if vk == 0x37 {
            Some('?' as u32)
        } else if vk == 0x38 {
            Some('*' as u32)
        } else {
            Some('(' as u32)
        }
    } else if vk == VK_SPACE {
        if shift {
            None
        } else {
            Some(' ' as u32)
        }
    } else if vk == VK_OEM_MINUS {
        Some(if shift { '_' } else { '-' } as u32)
    } else if vk == VK_OEM_PLUS {
        Some(if shift { '+' } else { '=' } as u32)
    } else if vk == VK_OEM_5 {
        Some(if shift { '/' } else { '\\' } as u32)
    } else if vk == VK_OEM_2 {
        Some(if shift { ',' } else { '.' } as u32)
    } else if vk == VK_OEM_1 {
        Some(if shift { 'Ж' } else { 'ж' } as u32)
    } else if vk == VK_OEM_7 {
        Some(if shift { 'Э' } else { 'э' } as u32)
    } else if vk == VK_OEM_COMMA {
        Some(if shift { 'Б' } else { 'б' } as u32)
    } else if vk == VK_OEM_PERIOD {
        Some(if shift { 'Ю' } else { 'ю' } as u32)
    } else if vk == VK_OEM_4 {
        Some(if shift { 'Х' } else { 'х' } as u32)
    } else if vk == VK_OEM_6 {
        Some(if shift { 'Ъ' } else { 'ъ' } as u32)
    } else if vk == VK_OEM_3 {
        Some(if shift { 'Ё' } else { 'ё' } as u32)
    } else {
        None
    }
}

/// On the US layout a character is typed with the key, and Shift state,
/// whose legend is that character.
pub proof fn lemma_en_key_carries_its_character(ch: char)
    ensures
        en_key(ch) matches Some(k) ==> us_keycap(k.0, k.1) == Some(ch as u32),
{
}

/// Every ASCII character that a US key carries is typed with that key.
pub proof fn lemma_us_keycaps_are_used(ch: char, vk: u16, shift: bool)
    requires
        us_keycap(vk, shift) == Some(ch as u32),
    ensures
        en_key(ch) == Some((vk, shift)),
{
}

/// On the Russian layout a character other than a Latin letter is typed
/// with the key, and Shift state, that carries it on a Russian keyboard.
pub proof fn lemma_ru_key_carries_its_character(ch: char)
    requires
        !('A' <= ch <= 'Z' || 'a' <= ch <= 'z'),
    ensures
        ru_key(ch) matches Some(k) ==> ru_keycap(k.0, k.1) == Some(ch as u32),
{
}

/// Every ASCII character on a non-letter key of a Russian keyboard is typed
/// with that key.
pub proof fn lemma_ru_keycaps_are_used(ch: char, vk: u16, shift: bool)
    requires
        (ch as u32) < 128,
        ru_keycap(vk, shift) == Some(ch as u32),
    ensures
        ru_key(ch) == Some((vk, shift)),
{
}

/// Every unit is typed: Enter and every character give at least one batch,
/// whatever the layout.
pub proof fn lemma_every_unit_is_typed(unit: UnitView, layout: Layout)
    requires
        unit matches UnitView::Unicode(cus) ==> cus.len() > 0,
    ensures
        unit_batches(unit, layout).len() > 0,
{
}

/// A character that no key of the layout types is sent as Unicode, code
/// unit by code unit, in order: the code units the system receives are the
/// unit's own.
pub proof fn lemma_keyless_units_are_sent_as_unicode(code_units: Seq<u16>, layout: Layout)
    requires
        !(code_units.len() == 1 && code_units[0] < 128 && layout_key(
            (code_units[0] as u8) as char,
            layout,
        ) is Some),
    ensures
        unit_batches(UnitView::Unicode(code_units), layout).len() == code_units.len(),
        forall|i: int|
            0 <= i < code_units.len() ==> {
                let b = #[trigger] unit_batches(UnitView::Unicode(code_units), layout)[i];
                &&& b.len() == 2
                &&& b[0] == KeyInput { vk: 0, scan: code_units[i], flags: KEYEVENTF_UNICODE }
                &&& b[1].scan == code_units[i]
                &&& b[1].vk == 0
            },
{
}

/// An ASCII character without a key on the layout, such as a tab, is sent
/// as that one code unit in Unicode.
pub proof fn lemma_keyless_ascii_is_unicode(cu: u16, layout: Layout)
    requires
        cu < 128,
        layout_key((cu as u8) as char, layout) is None,
    ensures
        unit_batches(UnitView::Unicode(seq![cu]), layout) == seq![unicode_batch(cu)],
{
    let u = unit_batches(UnitView::Unicode(seq![cu]), layout);
    assert(u =~= seq![unicode_batch(cu)]);
}

/// Every wait of a typing plan lasts exactly the requested interval, and
/// an empty interval gives no wait at all.
pub proof fn lemma_every_pause_is_the_interval(
    units: Seq<UnitView>,
    layout: Layout,
    interval: Span,
)
    ensures
        forall|i: int|
            0 <= i < steps_of(units, layout, interval).len() && (#[trigger] steps_of(
                units,
                layout,
                interval,
            )[i]) is Pause ==> steps_of(units, layout, interval)[i] == StepView::Pause(interval)
                && !(interval.secs == 0 && interval.nanos == 0),
    decreases units.len(),
{
    if units.len() > 0 {
        let p = units.drop_last();
        lemma_every_pause_is_the_interval(p, layout, interval);
        let a = steps_of(p, layout, interval);
        let b = unit_steps(units.last(), layout, interval);
        let subs = unit_batches(units.last(), layout).map_values(
            |bb: Seq<KeyInput>| StepView::Submit(bb),
        );
        assert forall|i: int|
            0 <= i < (a + b).len() && (#[trigger] (a + b)[i]) is Pause implies (a + b)[i]
            == StepView::Pause(interval) && !(interval.secs == 0 && interval.nanos == 0) by {
            if i >= a.len() {
                let j = i - a.len();
                assert((a + b)[i] == b[j]);
                if j < subs.len() {
                    assert(b[j] == subs[j]);
                }
            } else {
                assert((a + b)[i] == a[i]);
            }
        }
    }
}

/// The character, as a code point, that a batch types on a US keyboard: a
/// key pressed alone types its lower legend, a key pressed while Shift is
/// held its upper one, and a Unicode event its code unit.
pub open spec fn us_typed(b: Seq<KeyInput>) -> Option<u32> {
    if b.len() == 2 && b[0].vk == 0 && b[0].flags == KEYEVENTF_UNICODE {
        Some(b[0].scan as u32)
    } else if b.len() == 2 && b[0].flags == 0 && b[0].scan == 0 {
        us_keycap(b[0].vk, false)
    } else if b.len() == 4 && b[0] == key_down(VK_SHIFT) && b[1].flags == 0 && b[1].scan == 0 {
        us_keycap(b[1].vk, true)
    } else {
        None
    }
}

/// The character, as a code point, that a batch types on a Russian
/// keyboard, for batches that do not press a letter key.
pub open spec fn ru_typed(b: Seq<KeyInput>) -> Option<u32> {
    if b.len() == 2 && b[0].vk == 0 && b[0].flags == KEYEVENTF_UNICODE {
        Some(b[0].scan as u32)
    } else if b.len() == 2 && b[0].flags == 0 && b[0].scan == 0 {
        ru_keycap(b[0].vk, false)
    } else if b.len() == 4 && b[0] == key_down(VK_SHIFT) && b[1].flags == 0 && b[1].scan == 0 {
        ru_keycap(b[1].vk, true)
    } else {
        None
    }
}

/// On the US layout the batches of a character type exactly that
/// character's code units, in order.
pub proof fn lemma_us_batches_type_the_unit(code_units: Seq<u16>)
    ensures
        unit_batches(UnitView::Unicode(code_units), Layout::EnUs).len() == if code_units.len()
            == 1 && code_units[0] < 128 && en_key((code_units[0] as u8) as char) is Some {
            1
        } else {
            code_units.len()
        },
        code_units.len() == 1 ==> us_typed(
            unit_batches(UnitView::Unicode(code_units), Layout::EnUs)[0],
        ) == Some(code_units[0] as u32),
        code_units.len() != 1 || code_units[0] >= 128 ==> forall|i: int|
            0 <= i < code_units.len() ==> us_typed(
                #[trigger] unit_batches(UnitView::Unicode(code_units), Layout::EnUs)[i],
            ) == Some(code_units[i] as u32),
{
    if code_units.len() == 1 && code_units[0] < 128 {
        let ch = (code_units[0] as u8) as char;
        assert(ch as u32 == code_units[0] as u32);
        lemma_en_key_carries_its_character(ch);
    }
}

/// On the Russian layout the batches of a character other than a Latin
/// letter type exactly that character's code units, in order.
pub proof fn lemma_ru_batches_type_the_unit(code_units: Seq<u16>)
    requires
        code_units.len() == 1 ==> !(('A' as u16) <= code_units[0] <= ('Z' as u16) || ('a' as u16)
            <= code_units[0] <= ('z' as u16)),
    ensures
        code_units.len() == 1 ==> ru_typed(
            unit_batches(UnitView::Unicode(code_units), Layout::RuQwerty)[0],
        ) == Some(code_units[0] as u32),
        code_units.len() != 1 || code_units[0] >= 128 ==> forall|i: int|
            0 <= i < code_units.len() ==> ru_typed(
                #[trigger] unit_batches(UnitView::Unicode(code_units), Layout::RuQwerty)[i],
            ) == Some(code_units[i] as u32),
{
    if code_units.len() == 1 && code_units[0] < 128 {
        let ch = (code_units[0] as u8) as char;
        assert(ch as u32 == code_units[0] as u32);
        lemma_ru_key_carries_its_character(ch);
    }
}

/// Enter is typed with the Return key, pressed and released, on every
/// layout.
pub proof fn lemma_enter_is_return(layout: Layout)
    ensures
        unit_batches(UnitView::Enter, layout) == seq![
            seq![
                KeyInput { vk: 0x0D, scan: 0, flags: 0 },
                KeyInput { vk: 0x0D, scan: 0, flags: KEYEVENTF_KEYUP },
            ],
        ],
{
}

} // verus!
