//! The command line: `--text`, `--file`, `--delay`, `--interval-ms` and
//! `-h`/`--help`, read left to right; no arguments at all opens the window.
use vstd::prelude::*;

use crate::input::Layout;
use crate::timing::Span;

verus! {

/// What one command-line argument reads as when it is the value of
/// `--delay`: seconds as a decimal number.
#[derive(Debug, Clone, Copy)]
pub enum SecondsValue {
    /// The argument is not a number.
    NotANumber,
    /// The number is infinite, not a number, or negative.
    Invalid,
    /// The number is finite and non-negative but too large for a span.
    TooLarge,
    Value(Span),
}

/// One command-line argument: its text, or `None` when it is not valid
/// Unicode, and what it reads as in seconds.
#[derive(Debug)]
pub struct CliArg {
    pub text: Option<String>,
    pub seconds: SecondsValue,
}

/// What to do, as the command line asks.
#[derive(Debug)]
pub enum CliAction {
    Gui,
    Help,
    Type(TypeOptions),
    /// Type the contents of a file; the file is read once the whole command
    /// line has been accepted.
    TypeFile(FileRequest),
}

/// A typing job: the text, the delay before typing, and the pause between
/// units.
#[derive(Debug)]
pub struct TypeOptions {
    pub text: String,
    pub delay: Span,
    pub interval: Span,
    pub layout: Layout,
}

/// A typing job whose text is still in a file.
#[derive(Debug)]
pub struct FileRequest {
    pub path: String,
    pub delay: Span,
    pub interval: Span,
}

/// Why the command line was not accepted.
#[derive(Debug)]
pub enum CliError {
    /// The message for the user.
    Usage(String),
    /// `--delay` was given a number of seconds too large for a span.
    DelayOutOfRange,
}

/// The text printed for `--help`.
pub const HELP_TEXT: &'static str = "Just Input\n\n\
Usage:\n\
  just-input.exe\n\
  just-input.exe --text \"hello\" --delay 3\n\
  just-input.exe --file input.txt --delay 3\n\n\
Options:\n\
  --text <TEXT>          Text to type after the delay\n\
  --file <PATH>          UTF-8 file to type after the delay\n\
  --delay <SECONDS>      Delay before typing, default 3\n\
  --interval-ms <MS>     Pause between characters, default 10\n\
  -h, --help             Show this help\n";

/// The usage text.
pub fn help_text() -> (r: &'static str)
    ensures
        r@ == HELP_TEXT@,
{
    HELP_TEXT
}

/// Whether an argument is exactly `word`.
fn is_word(arg: &String, word: &str) -> (r: bool)
    ensures
        r == (arg@ == word@),
{
    let w = String::from_str(word);
    *arg == w
}

/// A decimal digit.
pub open spec fn is_digit(c: char) -> bool {
    '0' <= c <= '9'
}

/// The value of a string of decimal digits.
pub open spec fn digits_value(s: Seq<char>) -> int
    decreases s.len(),
{
    if s.len() == 0 {
        0
    } else {
        digits_value(s.drop_last()) * 10 + (s.last() as int - '0' as int)
    }
}

/// The digits of a decimal number: the text without a leading `+`.
pub open spec fn unsigned_digits(s: Seq<char>) -> Seq<char> {
    if s.len() > 0 && s[0] == '+' {
        s.skip(1)
    } else {
        s
    }
}

/// What a text reads as as an unsigned 64-bit number: an optional `+`
/// followed by at least one decimal digit and nothing else, with a value
/// that fits.
pub open spec fn decimal_u64(s: Seq<char>) -> Option<u64> {
    let d = unsigned_digits(s);
    if d.len() > 0 && (forall|i: int| 0 <= i < d.len() ==> is_digit(#[trigger] d[i]))
        && digits_value(d) <= u64::MAX {
        Some(digits_value(d) as u64)
    } else {
        None
    }
}

/// Reads a text as an unsigned 64-bit decimal number.
pub fn parse_decimal_u64(s: &str) -> (r: Option<u64>)
    ensures
        r == decimal_u64(s@),
{
    let mut value: u64 = 0;
    let mut overflow = false;
    let mut plus = false;
    let mut first = true;
    let mut seen_digit = false;
    for c in it: s.chars()
        invariant
            it.seq() == s@,
            0 <= it.index() <= s@.len(),
            first == (it.index() == 0),
            seen_digit == (it.index() > (if plus { 1int } else { 0int })),
            plus ==> (it.index() > 0 && s@[0] == '+'),
            it.index() > 0 ==> (plus == (s@[0] == '+')),
            forall|j: int|
                (if plus { 1int } else { 0int }) <= j < it.index() ==> is_digit(#[trigger] s@[j]),
            !overflow ==> value == digits_value(
                s@.subrange(if plus { 1int } else { 0int }, it.index() as int),
            ),
            overflow ==> digits_value(
                s@.subrange(if plus { 1int } else { 0int }, it.index() as int),
            ) > u64::MAX,
    {
        let ghost i = it.index() as int;
        let ghost start: int = if plus { 1int } else { 0int };
        if first && c == '+' {
            plus = true;
            assert(s@.subrange(1, 1) =~= Seq::<char>::empty());
        } else if c < '0' || c > '9' {
            assert(unsigned_digits(s@) =~= s@.skip(start));
            assert(unsigned_digits(s@)[i - start] == c);
            return None;
        } else {
            let d: u64 = (c as u32 - '0' as u32) as u64;
            let ghost sub = s@.subrange(start, i + 1);
            assert(sub.drop_last() =~= s@.subrange(start, i));
            assert(sub.last() == c);
            if !overflow {
                match value.checked_mul(10) {
                    Some(v10) => match v10.checked_add(d) {
                        Some(v) => {
                            value = v;
                        },
                        None => {
                            overflow = true;
                        },
                    },
                    None => {
                        overflow = true;
                    },
                }
            }
            seen_digit = true;
        }
        first = false;
    }
    let ghost start: int = if plus { 1int } else { 0int };
    assert(unsigned_digits(s@) =~= s@.subrange(start, s@.len() as int));
    if !seen_digit {
        return None;
    }
    if overflow {
        None
    } else {
        Some(value)
    }
}

/// The decision for a command line.
pub enum CliOutcome {
    Gui,
    Help,
    TypeText(Seq<char>, Span, Span),
    TypeFile(Seq<char>, Span, Span),
    Usage(Seq<char>),
    DelayOutOfRange,
}

/// What has been read so far.
pub struct ParseState {
    pub text: Option<Seq<char>>,
    pub file: Option<Seq<char>>,
    pub delay: Span,
    pub interval: Span,
}

/// The span of `millis` milliseconds.
pub open spec fn millis_span(millis: u64) -> Span {
    Span { secs: millis / 1000, nanos: ((millis % 1000) * 1_000_000) as u32 }
}

/// Before any argument: no text, no file, a delay of three seconds and an
/// interval of ten milliseconds.
pub open spec fn initial_state() -> ParseState {
    ParseState {
        text: None,
        file: None,
        delay: Span { secs: 3, nanos: 0 },
        interval: millis_span(10),
    }
}

/// The decision once every argument has been read: exactly one of text and
/// file must have been given.
pub open spec fn finish(st: ParseState) -> CliOutcome {
    match (st.text, st.file) {
        (Some(_), Some(_)) => CliOutcome::Usage("--text and --file cannot be used together"@),
        (Some(t), None) => CliOutcome::TypeText(t, st.delay, st.interval),
        (None, Some(f)) => CliOutcome::TypeFile(f, st.delay, st.interval),
        (None, None) => CliOutcome::Usage(
            "CLI mode needs --text or --file; omit arguments for GUI"@,
        ),
    }
}

/// An option that takes a value.
pub open spec fn takes_value(a: Seq<char>) -> bool {
    a == "--text"@ || a == "--file"@ || a == "--delay"@ || a == "--interval-ms"@
}

/// The decision for the arguments from index `i` on, with `st` read so far.
/// Help wins as soon as it is met; the first error met is the answer; a
/// later value of an option replaces an earlier one.
pub open spec fn parse_from(args: Seq<CliArg>, i: int, st: ParseState) -> CliOutcome
    decreases args.len() - i,
{
    if i < 0 || i >= args.len() {
        finish(st)
    } else if args[i].text is None {
        CliOutcome::Usage("arguments must be valid Unicode"@)
    } else {
        let a = args[i].text->Some_0@;
        if a == "-h"@ || a == "--help"@ {
            CliOutcome::Help
        } else if !takes_value(a) {
            CliOutcome::Usage("unknown argument: "@ + a)
        } else if i + 1 >= args.len() {
            CliOutcome::Usage(a + " needs a value"@)
        } else if args[i + 1].text is None {
            CliOutcome::Usage(a + " value must be valid Unicode"@)
        } else {
            let v = args[i + 1].text->Some_0@;
            if a == "--text"@ {
                parse_from(args, i + 2, ParseState { text: Some(v), ..st })
            } else if a == "--file"@ {
                parse_from(args, i + 2, ParseState { file: Some(v), ..st })
            } else if a == "--delay"@ {
                match args[i + 1].seconds {
                    SecondsValue::NotANumber => CliOutcome::Usage(a + " must be a number"@),
                    SecondsValue::Invalid => CliOutcome::Usage(
                        a + " must be a finite non-negative number"@,
                    ),
                    SecondsValue::TooLarge => CliOutcome::DelayOutOfRange,
                    SecondsValue::Value(d) => parse_from(
                        args,
                        i + 2,
                        ParseState { delay: d, ..st },
                    ),
                }
            } else {
                match decimal_u64(v) {
                    None => CliOutcome::Usage(a + " must be a non-negative integer"@),
                    Some(n) => parse_from(
                        args,
                        i + 2,
                        ParseState { interval: millis_span(n), ..st },
                    ),
                }
            }
        }
    }
}

/// The decision for a whole command line.
pub open spec fn cli_outcome(args: Seq<CliArg>) -> CliOutcome {
    if args.len() == 0 {
        CliOutcome::Gui
    } else {
        parse_from(args, 0, initial_state())
    }
}

/// A result carries the decision `o`.
pub open spec fn result_is(r: Result<CliAction, CliError>, o: CliOutcome) -> bool {
    match o {
        CliOutcome::Gui => r matches Ok(CliAction::Gui),
        CliOutcome::Help => r matches Ok(CliAction::Help),
        CliOutcome::TypeText(t, d, iv) => r matches Ok(CliAction::Type(opts)) && opts.text@ == t
            && opts.delay == d && opts.interval == iv && opts.layout == Layout::EnUs,
        CliOutcome::TypeFile(p, d, iv) => r matches Ok(CliAction::TypeFile(f)) && f.path@ == p
            && f.delay == d && f.interval == iv,
        CliOutcome::Usage(m) => r matches Err(CliError::Usage(e)) && e@ == m,
        CliOutcome::DelayOutOfRange => r matches Err(CliError::DelayOutOfRange),
    }
}

/// The view of an optional text.
pub open spec fn opt_view(text: Option<String>) -> Option<Seq<char>> {
    match text {
        Some(s) => Some(s@),
        None => None,
    }
}

fn with_suffix(name: &String, suffix: &str) -> (r: String)
    ensures
        r@ == name@ + suffix@,
{
    let mut m = name.clone();
    m.append(suffix);
    m
}

/// Reads the command line.
pub fn parse_args(args: &Vec<CliArg>) -> (r: Result<CliAction, CliError>)
    ensures
        result_is(r, cli_outcome(args@)),
{
    if args.len() == 0 {
        return Ok(CliAction::Gui);
    }
    let mut text: Option<String> = None;
    let mut file: Option<String> = None;
    let mut delay = Span::from_secs(3);
    let mut interval = Span::from_millis(10);
    let mut i: usize = 0;
    while i < args.len()
        invariant
            i <= args@.len() + 1,
            cli_outcome(args@) == parse_from(
                args@,
                i as int,
                ParseState {
                    text: opt_view(text),
                    file: opt_view(file),
                    delay,
                    interval,
                },
            ),
            args@.len() > 0,
        decreases args@.len() - i,
    {
        let ghost st = ParseState { text: opt_view(text), file: opt_view(file), delay, interval };
        let arg = match &args[i].text {
            Some(a) => a,
            None => {
                return Err(CliError::Usage(String::from_str("arguments must be valid Unicode")));
            },
        };
        if is_word(arg, "-h") || is_word(arg, "--help") {
            return Ok(CliAction::Help);
        }
        let is_text = is_word(arg, "--text");
        let is_file = is_word(arg, "--file");
        let is_delay = is_word(arg, "--delay");
        let is_interval = is_word(arg, "--interval-ms");
        if !(is_text || is_file || is_delay || is_interval) {
            let mut m = String::from_str("unknown argument: ");
            m.append(arg.as_str());
            return Err(CliError::Usage(m));
        }
        if i + 1 >= args.len() {
            return Err(CliError::Usage(with_suffix(arg, " needs a value")));
        }
        let value = match &args[i + 1].text {
            Some(v) => v,
            None => {
                return Err(CliError::Usage(with_suffix(arg, " value must be valid Unicode")));
            },
        };
        if is_text {
            text = Some(value.clone());
        } else if is_file {
            file = Some(value.clone());
        } else if is_delay {
            match args[i + 1].seconds {
                SecondsValue::NotANumber => {
                    return Err(CliError::Usage(with_suffix(arg, " must be a number")));
                },
                SecondsValue::Invalid => {
                    return Err(
                        CliError::Usage(with_suffix(arg, " must be a finite non-negative number")),
                    );
                },
                SecondsValue::TooLarge => {
                    return Err(CliError::DelayOutOfRange);
                },
                SecondsValue::Value(d) => {
                    delay = d;
                },
            }
        } else {
            match parse_decimal_u64(value.as_str()) {
                None => {
                    return Err(
                        CliError::Usage(with_suffix(arg, " must be a non-negative integer")),
                    );
                },
                Some(n) => {
                    interval = Span::from_millis(n);
                },
            }
        }
        i = i + 2;
    }
    let ghost st = ParseState { text: opt_view(text), file: opt_view(file), delay, interval };
    assert(parse_from(args@, i as int, st) == finish(st));
    match (text, file) {
        (Some(_), Some(_)) => Err(
            CliError::Usage(String::from_str("--text and --file cannot be used together")),
        ),
        (Some(text), None) => Ok(
            CliAction::Type(TypeOptions { text, delay, interval, layout: Layout::EnUs }),
        ),
        (None, Some(path)) => Ok(CliAction::TypeFile(FileRequest { path, delay, interval })),
        (None, None) => Err(
            CliError::Usage(
                String::from_str("CLI mode needs --text or --file; omit arguments for GUI"),
            ),
        ),
    }
}

/// The typing job for a file request once the file has been read:
/// `contents` is the file's text, or the system's description of why it
/// could not be read.
pub fn finish_file_request(request: FileRequest, contents: Result<String, String>) -> (r: Result<
    TypeOptions,
    String,
>)
    ensures
        match contents {
            Ok(t) => r matches Ok(o) && o.text@ == t@ && o.delay == request.delay && o.interval
                == request.interval && o.layout == Layout::EnUs,
            Err(e) => r matches Err(m) && m@ == "failed to read "@ + request.path@ + ": "@ + e@,
        },
{
    match contents {
        Ok(text) => Ok(
            TypeOptions {
                text,
                delay: request.delay,
                interval: request.interval,
                layout: Layout::EnUs,
            },
        ),
        Err(e) => {
            let mut m = String::from_str("failed to read ");
            m.append(request.path.as_str());
            m.append(": ");
            m.append(e.as_str());
            Err(m)
        },
    }
}

/// `--text` and `--file` exclude each other: once one of them has been
/// read, the command line can no longer become a job of the other kind.
pub proof fn lemma_text_and_file_exclusive(args: Seq<CliArg>, i: int, st: ParseState)
    ensures
        st.file is Some ==> !(parse_from(args, i, st) is TypeText),
        st.text is Some ==> !(parse_from(args, i, st) is TypeFile),
    decreases args.len() - i,
{
    if 0 <= i < args.len() && args[i].text is Some && i + 1 < args.len() && args[i
        + 1].text is Some {
        let a = args[i].text->Some_0@;
        let v = args[i + 1].text->Some_0@;
        lemma_text_and_file_exclusive(args, i + 2, ParseState { text: Some(v), ..st });
        lemma_text_and_file_exclusive(args, i + 2, ParseState { file: Some(v), ..st });
        match args[i + 1].seconds {
            SecondsValue::Value(d) => {
                lemma_text_and_file_exclusive(args, i + 2, ParseState { delay: d, ..st });
            },
            _ => {},
        }
        match decimal_u64(v) {
            Some(n) => {
                lemma_text_and_file_exclusive(
                    args,
                    i + 2,
                    ParseState { interval: millis_span(n), ..st },
                );
            },
            None => {},
        }
    }
}

/// Help wins when it comes first, whatever follows.
pub proof fn lemma_help_first(args: Seq<CliArg>)
    requires
        args.len() > 0,
        args[0].text is Some,
        args[0].text->Some_0@ == "-h"@ || args[0].text->Some_0@ == "--help"@,
    ensures
        cli_outcome(args) is Help,
{
}

/// A later value of an option replaces an earlier one: reading
/// `--text a --text b` is reading `--text b`.
pub proof fn lemma_later_value_wins(args: Seq<CliArg>, i: int, st: ParseState)
    requires
        0 <= i,
        i + 3 < args.len(),
        args[i].text is Some,
        args[i].text->Some_0@ == "--text"@,
        args[i + 1].text is Some,
        args[i + 2].text is Some,
        args[i + 2].text->Some_0@ == "--text"@,
        args[i + 3].text is Some,
    ensures
        parse_from(args, i, st) == parse_from(
            args,
            i + 4,
            ParseState { text: Some(args[i + 3].text->Some_0@), ..st },
        ),
{
    let st1 = ParseState { text: Some(args[i + 1].text->Some_0@), ..st };
    let st2 = ParseState { text: Some(args[i + 3].text->Some_0@), ..st1 };
    reveal_strlit("--text");
    reveal_strlit("-h");
    reveal_strlit("--help");
    assert("--text"@.len() != "-h"@.len());
    assert("--text"@[2] != "--help"@[2]);
    assert(parse_from(args, i, st) == parse_from(args, i + 2, st1));
    assert(parse_from(args, i + 2, st1) == parse_from(args, i + 4, st2));
    assert(ParseState { text: Some(args[i + 3].text->Some_0@), ..st1 } == ParseState {
        text: Some(args[i + 3].text->Some_0@),
        ..st
    });
}

/// No argument from index `i` on names a text source.
pub open spec fn no_source_options(args: Seq<CliArg>, i: int) -> bool {
    forall|j: int|
        i <= j < args.len() && (#[trigger] args[j]).text is Some ==> args[j].text->Some_0@
            != "--text"@ && args[j].text->Some_0@ != "--file"@
}

/// The state with text and file exchanged.
pub open spec fn swap_source(st: ParseState) -> ParseState {
    ParseState { text: st.file, file: st.text, ..st }
}

/// The decision with text jobs and file jobs exchanged.
pub open spec fn swap_job(o: CliOutcome) -> CliOutcome {
    match o {
        CliOutcome::TypeText(t, d, iv) => CliOutcome::TypeFile(t, d, iv),
        CliOutcome::TypeFile(p, d, iv) => CliOutcome::TypeText(p, d, iv),
        other => other,
    }
}

/// Text jobs and file jobs read everything else alike: exchanging where the
/// text comes from exchanges the kind of job and keeps its delay, its
/// interval and every error.
pub proof fn lemma_source_kind_keeps_options(args: Seq<CliArg>, i: int, st: ParseState)
    requires
        0 <= i,
        no_source_options(args, i),
    ensures
        parse_from(args, i, swap_source(st)) == swap_job(parse_from(args, i, st)),
    decreases args.len() - i,
{
    if i < args.len() && args[i].text is Some {
        let a = args[i].text->Some_0@;
        assert(a != "--text"@ && a != "--file"@);
        if i + 1 < args.len() && args[i + 1].text is Some {
            let v = args[i + 1].text->Some_0@;
            match args[i + 1].seconds {
                SecondsValue::Value(d) => {
                    lemma_source_kind_keeps_options(args, i + 2, ParseState { delay: d, ..st });
                    assert(swap_source(ParseState { delay: d, ..st }) == ParseState {
                        delay: d,
                        ..swap_source(st)
                    });
                },
                _ => {},
            }
            match decimal_u64(v) {
                Some(n) => {
                    lemma_source_kind_keeps_options(
                        args,
                        i + 2,
                        ParseState { interval: millis_span(n), ..st },
                    );
                    assert(swap_source(ParseState { interval: millis_span(n), ..st })
                        == ParseState { interval: millis_span(n), ..swap_source(st) });
                },
                None => {},
            }
        }
    }
}

/// The decision from index `i` on reads only the arguments from `i` on.
pub proof fn lemma_parse_reads_only_the_rest(
    a: Seq<CliArg>,
    b: Seq<CliArg>,
    i: int,
    st: ParseState,
)
    requires
        0 <= i,
        a.len() == b.len(),
        forall|j: int| i <= j < a.len() ==> a[j] == b[j],
    ensures
        parse_from(a, i, st) == parse_from(b, i, st),
    decreases a.len() - i,
{
    if i < a.len() && a[i].text is Some && i + 1 < a.len() && a[i + 1].text is Some {
        let v = a[i + 1].text->Some_0@;
        lemma_parse_reads_only_the_rest(a, b, i + 2, ParseState { text: Some(v), ..st });
        lemma_parse_reads_only_the_rest(a, b, i + 2, ParseState { file: Some(v), ..st });
        match a[i + 1].seconds {
            SecondsValue::Value(d) => {
                lemma_parse_reads_only_the_rest(a, b, i + 2, ParseState { delay: d, ..st });
            },
            _ => {},
        }
        match decimal_u64(v) {
            Some(n) => {
                lemma_parse_reads_only_the_rest(
                    a,
                    b,
                    i + 2,
                    ParseState { interval: millis_span(n), ..st },
                );
            },
            None => {},
        }
    }
}

/// `--file P` followed by any options but `--text` and `--file` gives the
/// file job that `--text P` followed by the same options gives as a text
/// job, with the same delay and interval; and the same error otherwise.
pub proof fn lemma_file_job_reads_options_like_text_job(file_args: Seq<CliArg>, text_args: Seq<
    CliArg,
>)
    requires
        file_args.len() == text_args.len(),
        file_args.len() >= 2,
        file_args[0].text is Some,
        file_args[0].text->Some_0@ == "--file"@,
        text_args[0].text is Some,
        text_args[0].text->Some_0@ == "--text"@,
        file_args[1].text is Some,
        forall|j: int| 1 <= j < file_args.len() ==> file_args[j] == text_args[j],
        no_source_options(file_args, 2),
    ensures
        cli_outcome(file_args) == swap_job(cli_outcome(text_args)),
{
    reveal_strlit("--file");
    reveal_strlit("--text");
    reveal_strlit("-h");
    reveal_strlit("--help");
    reveal_strlit("--delay");
    reveal_strlit("--interval-ms");
    assert("--file"@ != "-h"@ && "--file"@ != "--help"@ && "--file"@ != "--text"@) by {
        assert("--file"@.len() != "-h"@.len());
        assert("--file"@[2] != "--help"@[2]);
        assert("--file"@[2] != "--text"@[2]);
    }
    assert("--text"@ != "-h"@ && "--text"@ != "--help"@) by {
        assert("--text"@.len() != "-h"@.len());
        assert("--text"@[2] != "--help"@[2]);
    }
    let v = file_args[1].text->Some_0@;
    let init = initial_state();
    let sf = ParseState { file: Some(v), ..init };
    let stt = ParseState { text: Some(v), ..init };
    assert(cli_outcome(file_args) == parse_from(file_args, 2, sf));
    assert(cli_outcome(text_args) == parse_from(text_args, 2, stt));
    lemma_parse_reads_only_the_rest(text_args, file_args, 2, stt);
    lemma_source_kind_keeps_options(file_args, 2, stt);
    assert(swap_source(stt) == sf);
    assert(swap_job(swap_job(parse_from(file_args, 2, stt))) == parse_from(file_args, 2, stt));
}

/// The decimal digits of a number, most significant first.
pub open spec fn decimal_digits(n: nat) -> Seq<char>
    decreases n,
{
    if n < 10 {
        seq![(n + '0' as u32) as char]
    } else {
        decimal_digits(n / 10).push(((n % 10) + '0' as u32) as char)
    }
}

/// Reading the decimal digits of a number, with or without a leading `+`,
/// gives the number back.
pub proof fn lemma_decimal_round_trip(n: u64)
    ensures
        decimal_u64(decimal_digits(n as nat)) == Some(n),
        decimal_u64(seq!['+'] + decimal_digits(n as nat)) == Some(n),
{
    lemma_decimal_digits(n as nat);
    let d = decimal_digits(n as nat);
    assert(unsigned_digits(d) == d);
    assert((seq!['+'] + d).skip(1) =~= d);
    assert(unsigned_digits(seq!['+'] + d) == d);
}

proof fn lemma_decimal_digits(n: nat)
    ensures
        decimal_digits(n).len() > 0,
        decimal_digits(n)[0] != '+',
        forall|i: int| 0 <= i < decimal_digits(n).len() ==> is_digit(#[trigger] decimal_digits(n)[i]),
        digits_value(decimal_digits(n)) == n,
    decreases n,
{
    let c = ((n % 10) + '0' as u32) as char;
    assert(c as int == (n % 10) + 48);
    if n < 10 {
        let d = decimal_digits(n);
        assert(d.drop_last() =~= Seq::<char>::empty());
        assert(d.last() == c);
        assert(digits_value(d.drop_last()) == 0);
    } else {
        lemma_decimal_digits(n / 10);
        let p = decimal_digits(n / 10);
        let d = decimal_digits(n);
        assert(d.drop_last() =~= p);
        assert(d.last() == c);
        assert(digits_value(d) == digits_value(p) * 10 + (n % 10));
        assert((n / 10) * 10 + n % 10 == n);
        assert(d[0] == p[0]);
        assert forall|i: int| 0 <= i < d.len() implies is_digit(#[trigger] d[i]) by {
            if i < p.len() {
                assert(d[i] == p[i]);
            }
        }
    }
}

/// A sign or an empty text is not a number of milliseconds.
pub proof fn lemma_signs_alone_are_not_numbers()
    ensures
        decimal_u64(seq![]) is None,
        decimal_u64(seq!['+']) is None,
        forall|s: Seq<char>| s.len() > 0 && s[0] == '-' ==> (#[trigger] decimal_u64(s)) is None,
{
    assert(unsigned_digits(seq!['+']) =~= Seq::<char>::empty());
    assert forall|s: Seq<char>| s.len() > 0 && s[0] == '-' implies (#[trigger] decimal_u64(
        s,
    )) is None by {
        assert(unsigned_digits(s) == s);
        assert(!is_digit(s[0]));
    }
}

/// `--text T` alone types `T` after three seconds, pausing ten
/// milliseconds between units.
pub proof fn lemma_text_alone_uses_defaults(args: Seq<CliArg>)
    requires
        args.len() == 2,
        args[0].text is Some,
        args[0].text->Some_0@ == "--text"@,
        args[1].text is Some,
    ensures
        cli_outcome(args) matches CliOutcome::TypeText(t, d, iv) && t == args[1].text->Some_0@
            && d.wf() && d.total_nanos() == 3_000_000_000 && iv.wf() && iv.total_nanos()
            == 10_000_000,
{
    reveal_strlit("--text");
    reveal_strlit("-h");
    reveal_strlit("--help");
    assert("--text"@ != "-h"@ && "--text"@ != "--help"@) by {
        assert("--text"@.len() != "-h"@.len());
        assert("--text"@[2] != "--help"@[2]);
    }
    let st1 = ParseState { text: Some(args[1].text->Some_0@), ..initial_state() };
    assert(cli_outcome(args) == parse_from(args, 2, st1));
    assert(parse_from(args, 2, st1) == finish(st1));
}

/// `--text T --interval-ms N` pauses exactly `N` milliseconds between units.
pub proof fn lemma_interval_is_the_given_milliseconds(args: Seq<CliArg>, n: u64)
    requires
        args.len() == 4,
        args[0].text is Some,
        args[0].text->Some_0@ == "--text"@,
        args[1].text is Some,
        args[2].text is Some,
        args[2].text->Some_0@ == "--interval-ms"@,
        args[3].text is Some,
        decimal_u64(args[3].text->Some_0@) == Some(n),
    ensures
        cli_outcome(args) matches CliOutcome::TypeText(t, d, iv) && t == args[1].text->Some_0@
            && d.total_nanos() == 3_000_000_000 && iv.wf() && iv.total_nanos() == n * 1_000_000,
{
    reveal_strlit("--text");
    reveal_strlit("-h");
    reveal_strlit("--help");
    reveal_strlit("--interval-ms");
    reveal_strlit("--file");
    reveal_strlit("--delay");
    assert("--text"@ != "-h"@ && "--text"@ != "--help"@) by {
        assert("--text"@.len() != "-h"@.len());
        assert("--text"@[2] != "--help"@[2]);
    }
    assert("--interval-ms"@ != "-h"@ && "--interval-ms"@ != "--help"@ && "--interval-ms"@
        != "--text"@ && "--interval-ms"@ != "--file"@ && "--interval-ms"@ != "--delay"@) by {
        assert("--interval-ms"@.len() != "-h"@.len());
        assert("--interval-ms"@.len() != "--help"@.len());
        assert("--interval-ms"@.len() != "--text"@.len());
        assert("--interval-ms"@.len() != "--file"@.len());
        assert("--interval-ms"@.len() != "--delay"@.len());
    }
    let st1 = ParseState { text: Some(args[1].text->Some_0@), ..initial_state() };
    assert(cli_outcome(args) == parse_from(args, 2, st1));
    assert(parse_from(args, 2, st1) == parse_from(
        args,
        4,
        ParseState { interval: millis_span(n), ..st1 },
    ));
}

/// `--text T --delay X` waits exactly the span that `X` reads as.
pub proof fn lemma_delay_is_the_given_span(args: Seq<CliArg>, d: Span)
    requires
        args.len() == 4,
        args[0].text is Some,
        args[0].text->Some_0@ == "--text"@,
        args[1].text is Some,
        args[2].text is Some,
        args[2].text->Some_0@ == "--delay"@,
        args[3].text is Some,
        args[3].seconds == SecondsValue::Value(d),
    ensures
        cli_outcome(args) matches CliOutcome::TypeText(t, delay, iv) && t == args[1].text->Some_0@
            && delay == d && iv.total_nanos() == 10_000_000,
{
    reveal_strlit("--text");
    reveal_strlit("-h");
    reveal_strlit("--help");
    reveal_strlit("--file");
    reveal_strlit("--delay");
    assert("--text"@ != "-h"@ && "--text"@ != "--help"@) by {
        assert("--text"@.len() != "-h"@.len());
        assert("--text"@[2] != "--help"@[2]);
    }
    assert("--delay"@ != "-h"@ && "--delay"@ != "--help"@ && "--delay"@ != "--text"@
        && "--delay"@ != "--file"@) by {
        assert("--delay"@.len() != "-h"@.len());
        assert("--delay"@.len() != "--help"@.len());
        assert("--delay"@.len() != "--text"@.len());
        assert("--delay"@.len() != "--file"@.len());
    }
    let st1 = ParseState { text: Some(args[1].text->Some_0@), ..initial_state() };
    assert(cli_outcome(args) == parse_from(args, 2, st1));
    assert(parse_from(args, 2, st1) == parse_from(args, 4, ParseState { delay: d, ..st1 }));
}

/// An argument that is neither help nor an option is refused, and the
/// message ends with that argument.
pub proof fn lemma_unknown_argument_is_named(args: Seq<CliArg>)
    requires
        args.len() > 0,
        args[0].text is Some,
        args[0].text->Some_0@ != "-h"@,
        args[0].text->Some_0@ != "--help"@,
        !takes_value(args[0].text->Some_0@),
    ensures
        cli_outcome(args) matches CliOutcome::Usage(m) && m.skip(
            m.len() - args[0].text->Some_0@.len(),
        ) == args[0].text->Some_0@,
{
    let a = args[0].text->Some_0@;
    let m = "unknown argument: "@ + a;
    assert(m.skip(m.len() - a.len()) =~= a);
}

} // verus!
