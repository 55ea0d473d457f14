use just_input::input::{KeyInput, Layout, TypeError, KEYEVENTF_KEYUP};
use just_input::run::{RunAction, TypingRun};
use just_input::timing::Span;

/// What a run does when the submissions numbered in `failing` (counting
/// from zero) fail: the actions it asks for, and its result.
fn drive(text: &str, interval: Span, failing: &[usize]) -> (Vec<String>, Result<(), String>) {
    let mut run = TypingRun::start(text, interval, Layout::EnUs);
    let mut last = Ok(());
    let mut log = Vec::new();
    let mut sends = 0;
    loop {
        match run.advance(last) {
            RunAction::Send(batch, next) => {
                log.push(format!("send {}", batch.len()));
                last = if failing.contains(&sends) {
                    Err(TypeError::SendFailed(format!("batch {sends}")))
                } else {
                    Ok(())
                };
                sends += 1;
                run = next;
            }
            RunAction::Sleep(pause, next) => {
                log.push(format!("sleep {}", pause.nanos));
                last = Ok(());
                run = next;
            }
            RunAction::Finish(result) => return (log, result.map_err(|e| e.message())),
        }
    }
}

#[test]
fn successful_run_sends_every_unit_and_waits_after_each() {
    let (log, result) = drive("aB\n", Span::from_millis(5), &[]);
    assert_eq!(result, Ok(()));
    assert_eq!(
        log,
        vec!["send 2", "sleep 5000000", "send 4", "sleep 5000000", "send 2", "sleep 5000000"]
    );
}

#[test]
fn run_stops_at_first_failed_batch() {
    let (log, result) = drive("ab🙂c", Span::from_millis(5), &[2, 3]);
    assert_eq!(result, Err("failed to send keyboard input: batch 2".to_string()));
    // Two whole units with their waits, then the first half of the emoji.
    assert_eq!(log, vec!["send 2", "sleep 5000000", "send 2", "sleep 5000000", "send 2"]);
}

#[test]
fn failed_last_batch_is_not_followed_by_a_wait() {
    let (log, result) = drive("a", Span::from_millis(5), &[0]);
    assert!(result.is_err());
    assert_eq!(log, vec!["send 2"]);
}

#[test]
fn zero_interval_never_waits() {
    let (log, result) = drive("abc", Span::from_millis(0), &[]);
    assert_eq!(result, Ok(()));
    assert_eq!(log, vec!["send 2", "send 2", "send 2"]);
}

#[test]
fn empty_text_finishes_at_once() {
    let (log, result) = drive("", Span::from_millis(5), &[]);
    assert_eq!(result, Ok(()));
    assert!(log.is_empty());
}

#[test]
fn first_batch_of_a_run_is_the_first_key() {
    let run = TypingRun::start("x", Span::from_millis(0), Layout::EnUs);
    match run.advance(Ok(())) {
        RunAction::Send(batch, _) => assert_eq!(
            batch,
            vec![
                KeyInput { vk: 0x58, scan: 0, flags: 0 },
                KeyInput { vk: 0x58, scan: 0, flags: KEYEVENTF_KEYUP },
            ]
        ),
        _ => panic!("expected a batch"),
    }
}
