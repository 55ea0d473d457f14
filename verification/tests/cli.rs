use just_input::cli::{
    finish_file_request, help_text, parse_args, parse_decimal_u64, CliAction, CliArg, CliError,
    FileRequest, SecondsValue,
};
use just_input::input::Layout;
use just_input::timing::Span;
use std::time::Duration;

fn seconds_of(text: &str) -> SecondsValue {
    match text.parse::<f32>() {
        Err(_) => SecondsValue::NotANumber,
        Ok(v) if !v.is_finite() || v.is_sign_negative() => SecondsValue::Invalid,
        Ok(v) => match Duration::try_from_secs_f32(v) {
            Ok(d) => SecondsValue::Value(Span { secs: d.as_secs(), nanos: d.subsec_nanos() }),
            Err(_) => SecondsValue::TooLarge,
        },
    }
}

fn arg(text: &str) -> CliArg {
    CliArg { text: Some(text.to_string()), seconds: seconds_of(text) }
}

fn args(values: &[&str]) -> Vec<CliArg> {
    values.iter().map(|v| arg(v)).collect()
}

fn duration(span: Span) -> Duration {
    Duration::new(span.secs, span.nanos)
}

fn usage(result: Result<CliAction, CliError>) -> String {
    match result {
        Err(CliError::Usage(message)) => message,
        other => panic!("expected a usage error, got {other:?}"),
    }
}

#[test]
fn no_args_opens_gui() {
    assert!(matches!(parse_args(&args(&[])).unwrap(), CliAction::Gui));
}

#[test]
fn parses_text_mode() {
    let action = parse_args(&args(&[
        "--text",
        "hello",
        "--delay",
        "1.5",
        "--interval-ms",
        "25",
    ]))
    .unwrap();

    match action {
        CliAction::Type(options) => {
            assert_eq!(options.text, "hello");
            assert_eq!(duration(options.delay), Duration::from_secs_f32(1.5));
            assert_eq!(duration(options.interval), Duration::from_millis(25));
        }
        _ => panic!("expected type action"),
    }
}

#[test]
fn rejects_text_and_file_together() {
    assert!(parse_args(&args(&["--text", "hello", "--file", "input.txt"])).is_err());
}

#[test]
fn text_mode_defaults() {
    match parse_args(&args(&["--text", "hi"])).unwrap() {
        CliAction::Type(options) => {
            assert_eq!(duration(options.delay), Duration::from_secs(3));
            assert_eq!(duration(options.interval), Duration::from_millis(10));
            assert_eq!(options.layout, Layout::EnUs);
        }
        _ => panic!("expected type action"),
    }
}

#[test]
fn file_mode_defers_reading() {
    match parse_args(&args(&["--file", "input.txt", "--delay", "0"])).unwrap() {
        CliAction::TypeFile(request) => {
            assert_eq!(request.path, "input.txt");
            assert_eq!(duration(request.delay), Duration::ZERO);
        }
        _ => panic!("expected file action"),
    }
}

#[test]
fn help_wins_when_met_first() {
    assert!(matches!(parse_args(&args(&["-h"])).unwrap(), CliAction::Help));
    assert!(matches!(
        parse_args(&args(&["--text", "x", "--help", "--bogus"])).unwrap(),
        CliAction::Help
    ));
    assert_eq!(usage(parse_args(&args(&["--bogus", "--help"]))), "unknown argument: --bogus");
}

#[test]
fn later_value_wins() {
    match parse_args(&args(&["--text", "a", "--text", "b", "--interval-ms", "5", "--interval-ms", "7"])).unwrap() {
        CliAction::Type(options) => {
            assert_eq!(options.text, "b");
            assert_eq!(duration(options.interval), Duration::from_millis(7));
        }
        _ => panic!("expected type action"),
    }
}

#[test]
fn usage_errors() {
    assert_eq!(usage(parse_args(&args(&["--text"]))), "--text needs a value");
    assert_eq!(usage(parse_args(&args(&["--delay", "soon", "--text", "x"]))), "--delay must be a number");
    assert_eq!(
        usage(parse_args(&args(&["--delay", "-1"]))),
        "--delay must be a finite non-negative number"
    );
    assert_eq!(
        usage(parse_args(&args(&["--delay", "inf"]))),
        "--delay must be a finite non-negative number"
    );
    assert_eq!(
        usage(parse_args(&args(&["--interval-ms", "-3"]))),
        "--interval-ms must be a non-negative integer"
    );
    assert_eq!(usage(parse_args(&args(&["--delay", "2"]))), "CLI mode needs --text or --file; omit arguments for GUI");
    assert_eq!(
        usage(parse_args(&args(&["--file", "a", "--text", "b"]))),
        "--text and --file cannot be used together"
    );
}

#[test]
fn non_unicode_arguments_are_refused() {
    let not_unicode = || CliArg { text: None, seconds: SecondsValue::NotANumber };
    assert_eq!(usage(parse_args(&vec![not_unicode()])), "arguments must be valid Unicode");
    assert_eq!(
        usage(parse_args(&vec![arg("--file"), not_unicode()])),
        "--file value must be valid Unicode"
    );
}

#[test]
fn delay_too_large_is_out_of_range() {
    assert!(matches!(
        parse_args(&args(&["--text", "x", "--delay", "1e30"])),
        Err(CliError::DelayOutOfRange)
    ));
}

#[test]
fn reads_file_contents() {
    let request = FileRequest {
        path: "input.txt".to_string(),
        delay: Span::from_secs(1),
        interval: Span::from_millis(10),
    };
    let options = finish_file_request(request, Ok("typed".to_string())).unwrap();
    assert_eq!(options.text, "typed");
    assert_eq!(duration(options.delay), Duration::from_secs(1));
    let request = FileRequest {
        path: "missing.txt".to_string(),
        delay: Span::from_secs(1),
        interval: Span::from_millis(10),
    };
    assert_eq!(
        finish_file_request(request, Err("not found".to_string())).unwrap_err(),
        "failed to read missing.txt: not found"
    );
}

#[test]
fn decimal_numbers_read_like_the_standard_library() {
    for text in ["0", "25", "+7", "007", "", "+", "-1", "1a", " 1", "18446744073709551615", "18446744073709551616", "99999999999999999999999"] {
        assert_eq!(parse_decimal_u64(text), text.parse::<u64>().ok(), "{text:?}");
    }
}

#[test]
fn help_lists_every_option() {
    let help = help_text();
    assert!(help.starts_with("Just Input\n\nUsage:\n"));
    for option in ["--text <TEXT>", "--file <PATH>", "--delay <SECONDS>", "--interval-ms <MS>", "-h, --help"] {
        assert!(help.contains(option), "{option}");
    }
}
