use shakey::fmt::{
    format_duration, format_seconds, join_multiline_max, parse_duration, show_iter, with_commas,
};
use shakey::watch::WatcherState;

fn b(s: &str) -> Vec<u8> {
    s.as_bytes().to_vec()
}

#[test]
fn threshold_change_triggers_exactly_one_reload() {
    let mut w = WatcherState::start(Some(100)).expect("first stat should succeed");
    assert_eq!(w.last_mtime, 100);
    // the change is past the debounce threshold: one reload
    assert!(w.poll(Some(200), 50));
    w.reload_done(200);
    // the same modification time triggers no second reload
    assert!(!w.poll(Some(200), 50));
}

#[test]
fn sub_threshold_touch_triggers_none() {
    let w = WatcherState::start(Some(100)).expect("first stat should succeed");
    assert!(!w.poll(Some(130), 50));
    assert!(!w.poll(Some(90), 50));
    assert!(!w.poll(None, 50));
}

#[test]
fn first_stat_failure_is_fatal() {
    assert!(WatcherState::start(None).is_err());
}

#[test]
fn round_trip() {
    let input = "10 hours, 3 minutes, 39 seconds";
    let secs = parse_duration(input.as_bytes());
    assert_eq!(secs, 10 * 3600 + 3 * 60 + 39);
    assert_eq!(format_duration(secs), b(input));
}

#[test]
fn durations_skip_zero_units() {
    assert_eq!(format_duration(7200), b("2 hours"));
    assert_eq!(format_duration(61), b("1 minutes, 1 seconds"));
    assert_eq!(format_duration(0), b(""));
    assert_eq!(parse_duration(b""), 0);
    assert_eq!(parse_duration(b"nonsense"), 0);
    assert_eq!(parse_duration(b"5 weeks"), 0);
}

#[test]
fn readable_time_uses_commas_and_and() {
    assert_eq!(format_seconds(39), b("39 seconds"));
    assert_eq!(format_seconds(1), b("1 second"));
    assert_eq!(format_seconds(61), b("1 minute and 1 second"));
    assert_eq!(
        format_seconds(86400 + 2 * 3600 + 3 * 60 + 4),
        b("1 day, 2 hours, 3 minutes and 4 seconds")
    );
}

#[test]
fn thousands_get_commas() {
    assert_eq!(with_commas(999), b("999"));
    assert_eq!(with_commas(1000), b("1,000"));
    assert_eq!(with_commas(1234567), b("1,234,567"));
    assert_eq!(with_commas(1000000), b("1,000,000"));
}

#[test]
fn listing_breaks_lines_at_the_maximum() {
    let items: Vec<Vec<u8>> = (0..4).map(|i| b(&format!("c{i}"))).collect();
    assert_eq!(join_multiline_max(&items, 2), b("c0 c1\n c2 c3"));
    assert_eq!(join_multiline_max(&items, 10), b("c0 c1 c2 c3"));
}

#[test]
fn show_iter_wraps_and_separates() {
    let items = vec![b("a"), b("b")];
    assert_eq!(show_iter(91, 93, &items), b("[a, b]"));
}
