use just_input::timing::Span;
use std::time::Duration;

#[test]
fn millis_split_into_seconds_and_nanos() {
    let s = Span::from_millis(2_500);
    assert_eq!((s.secs, s.nanos), (2, 500_000_000));
    let d = Duration::from_millis(2_500);
    assert_eq!((s.secs, s.nanos), (d.as_secs(), d.subsec_nanos()));
    let max = Span::from_millis(u64::MAX);
    let dmax = Duration::from_millis(u64::MAX);
    assert_eq!((max.secs, max.nanos), (dmax.as_secs(), dmax.subsec_nanos()));
}

#[test]
fn zero_span() {
    assert!(Span::from_millis(0).is_zero());
    assert!(!Span::from_millis(1).is_zero());
    assert!(!Span::from_secs(3).is_zero());
}
