//! Text preparation: every character becomes one input unit, and every
//! line break (`\r\n`, `\r` or `\n`) becomes one Enter key press.
use vstd::prelude::*;

verus! {

/// One thing to type: a character as its UTF-16 code units, or Enter.
#[derive(Clone, Debug, PartialEq, Eq)]
pub enum InputUnit {
    Unicode(Vec<u16>),
    Enter,
}

/// The mathematical value of an [`InputUnit`].
pub enum UnitView {
    Unicode(Seq<u16>),
    Enter,
}

impl View for InputUnit {
    type V = UnitView;

    open spec fn view(&self) -> UnitView {
        match self {
            InputUnit::Unicode(code_units) => UnitView::Unicode(code_units@),
            InputUnit::Enter => UnitView::Enter,
        }
    }
}

/// The views of a sequence of units.
pub open spec fn unit_views(units: Seq<InputUnit>) -> Seq<UnitView> {
    units.map_values(|u: InputUnit| u@)
}

/// The UTF-16 encoding of a character: one code unit inside the Basic
/// Multilingual Plane, a surrogate pair above it.
pub open spec fn utf16_encode(c: char) -> Seq<u16> {
    let v = c as u32;
    if v < 0x10000 {
        seq![v as u16]
    } else {
        seq![
            (0xD800 + (v - 0x10000) / 0x400) as u16,
            (0xDC00 + (v - 0x10000) % 0x400) as u16,
        ]
    }
}

/// The scalar value that one or two UTF-16 code units stand for.
pub open spec fn utf16_decode(code_units: Seq<u16>) -> int {
    if code_units.len() == 1 {
        code_units[0] as int
    } else {
        0x10000 + (code_units[0] - 0xD800) * 0x400 + (code_units[1] - 0xDC00)
    }
}

/// The units of a text. A `\n` that directly follows a `\r` adds nothing:
/// the `\r` already stood for that line break. Any other `\r` or `\n` is
/// one Enter; any other character is its UTF-16 encoding.
pub open spec fn units_of(s: Seq<char>) -> Seq<UnitView>
    decreases s.len(),
{
    if s.len() == 0 {
        seq![]
    } else {
        let prev = s.drop_last();
        let c = s.last();
        if c == '\n' && prev.len() > 0 && prev.last() == '\r' {
            units_of(prev)
        } else if c == '\r' || c == '\n' {
            units_of(prev).push(UnitView::Enter)
        } else {
            units_of(prev).push(UnitView::Unicode(utf16_encode(c)))
        }
    }
}

/// Encodes one character as UTF-16.
pub fn encode_utf16(c: char) -> (r: Vec<u16>)
    ensures
        r@ == utf16_encode(c),
{
    let v: u32 = c as u32;
    if v < 0x10000 {
        let mut r: Vec<u16> = Vec::new();
        r.push(v as u16);
        r
    } else {
        let w: u32 = v - 0x10000;
        let mut r: Vec<u16> = Vec::new();
        r.push((0xD800 + w / 0x400) as u16);
        r.push((0xDC00 + w % 0x400) as u16);
        assert(r@ =~= utf16_encode(c));
        r
    }
}

/// Splits `text` into input units: line breaks of any kind become Enter,
/// every other character its UTF-16 code units.
pub fn prepare_text(text: &str) -> (units: Vec<InputUnit>)
    ensures
        unit_views(units@) == units_of(text@),
{
    let mut units: Vec<InputUnit> = Vec::new();
    let mut after_cr = false;
    for ch in it: text.chars()
        invariant
            it.seq() == text@,
            0 <= it.index() <= text@.len(),
            unit_views(units@) == units_of(text@.take(it.index() as int)),
            after_cr == (it.index() > 0 && text@[it.index() - 1] == '\r'),
    {
        let ghost i = it.index() as int;
        assert(text@.take(i + 1).drop_last() =~= text@.take(i));
        assert(text@.take(i + 1).last() == ch);
        if ch == '\r' {
            units.push(InputUnit::Enter);
            after_cr = true;
        } else if ch == '\n' {
            if !after_cr {
                units.push(InputUnit::Enter);
            }
            after_cr = false;
        } else {
            units.push(InputUnit::Unicode(encode_utf16(ch)));
            after_cr = false;
        }
        assert(unit_views(units@) =~= units_of(text@.take(i + 1)));
    }
    assert(text@.take(text@.len() as int) =~= text@);
    units
}

/// Encoding a character and decoding the result gives the character back;
/// a character takes two code units, a surrogate pair, exactly when it lies
/// beyond the Basic Multilingual Plane.
pub proof fn lemma_utf16_round_trip(c: char)
    ensures
        utf16_decode(utf16_encode(c)) == c as u32,
        utf16_encode(c).len() == 1 <==> (c as u32) < 0x10000,
        utf16_encode(c).len() == 2 <==> (c as u32) >= 0x10000,
        (c as u32) >= 0x10000 ==> 0xD800 <= utf16_encode(c)[0] < 0xDC00,
        (c as u32) >= 0x10000 ==> 0xDC00 <= utf16_encode(c)[1] < 0xE000,
{
    let v = c as u32;
    if v >= 0x10000 {
        let w = v - 0x10000;
        assert(w == (w / 0x400) * 0x400 + w % 0x400);
        assert(w < 0x100000);
    }
}

/// Preparing two texts one after the other gives the units of the joined
/// text, unless the join splits a `\r\n` pair (then the pair is one Enter,
/// not two).
pub proof fn lemma_units_of_append(a: Seq<char>, b: Seq<char>)
    requires
        !(a.len() > 0 && a.last() == '\r' && b.len() > 0 && b[0] == '\n'),
    ensures
        units_of(a + b) == units_of(a) + units_of(b),
    decreases b.len(),
{
    if b.len() == 0 {
        assert(a + b =~= a);
        assert(units_of(a) + units_of(b) =~= units_of(a));
    } else {
        let b0 = b.drop_last();
        lemma_units_of_append(a, b0);
        assert((a + b).drop_last() =~= a + b0);
        assert((a + b).last() == b.last());
        if b0.len() == 0 {
            assert(a + b0 =~= a);
            assert(units_of(b0) =~= seq![]);
            assert(units_of(a) + units_of(b0) =~= units_of(a));
        } else {
            assert((a + b0).last() == b0.last());
        }
        let c = b.last();
        if c == '\n' && b0.len() > 0 && b0.last() == '\r' {
        } else if c == '\r' || c == '\n' {
            assert(units_of(a + b) =~= units_of(a) + units_of(b));
        } else {
            assert(units_of(a + b) =~= units_of(a) + units_of(b));
        }
    }
}

/// A text without line breaks gives exactly one unit per character, in
/// order, and that unit is the character's UTF-16 encoding.
pub proof fn lemma_units_of_plain_text(s: Seq<char>)
    requires
        forall|i: int| 0 <= i < s.len() ==> s[i] != '\r' && s[i] != '\n',
    ensures
        units_of(s).len() == s.len(),
        forall|i: int|
            0 <= i < s.len() ==> units_of(s)[i] == UnitView::Unicode(utf16_encode(s[i])),
    decreases s.len(),
{
    if s.len() > 0 {
        let p = s.drop_last();
        assert forall|i: int| 0 <= i < p.len() implies p[i] != '\r' && p[i] != '\n' by {
            assert(p[i] == s[i]);
        }
        lemma_units_of_plain_text(p);
        assert(s.last() == s[s.len() - 1]);
    }
}

/// The number of Enter units is the number of line breaks, counting
/// `\r\n` once.
pub open spec fn count_enters(units: Seq<UnitView>) -> nat
    decreases units.len(),
{
    if units.len() == 0 {
        0
    } else {
        count_enters(units.drop_last()) + if units.last() is Enter { 1nat } else { 0nat }
    }
}

/// The number of line breaks in a text: every `\r`, and every `\n` that
/// does not directly follow a `\r`.
pub open spec fn count_line_breaks(s: Seq<char>) -> nat
    decreases s.len(),
{
    if s.len() == 0 {
        0
    } else {
        let prev = s.drop_last();
        let c = s.last();
        count_line_breaks(prev) + if c == '\r' || (c == '\n' && !(prev.len() > 0
            && prev.last() == '\r')) {
            1nat
        } else {
            0nat
        }
    }
}

/// Every line break of the text, whatever its kind, becomes exactly one
/// Enter, and nothing else does.
pub proof fn lemma_one_enter_per_line_break(s: Seq<char>)
    ensures
        count_enters(units_of(s)) == count_line_breaks(s),
    decreases s.len(),
{
    if s.len() > 0 {
        let p = s.drop_last();
        lemma_one_enter_per_line_break(p);
        let c = s.last();
        if c == '\n' && p.len() > 0 && p.last() == '\r' {
        } else {
            let u = units_of(s);
            assert(u.drop_last() =~= units_of(p));
        }
    }
}

} // verus!
