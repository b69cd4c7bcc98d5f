use limiteron::clock::{system_clock, Clock, SystemClock};

#[test]
fn test_system_clock_now() {
    let clock = SystemClock;
    let now = clock.now();
    let later = clock.now();
    assert!(later >= now);
}

#[test]
fn test_system_clock_unix_timestamp() {
    let clock = SystemClock;
    let ts = clock.unix_timestamp();
    assert!(ts > 1_700_000_000);
    assert!(ts < 2_000_000_000);
}

#[test]
fn test_system_clock_unix_timestamp_nanos() {
    let clock = SystemClock;
    let ts_nanos = clock.unix_timestamp_nanos();
    let ts_secs = clock.unix_timestamp();
    let expected_nanos = ts_secs * 1_000_000_000;
    assert!(ts_nanos >= expected_nanos);
    assert!(ts_nanos < expected_nanos + 2_000_000_000);
}

#[test]
fn test_system_clock_arc() {
    let clock = system_clock();
    let ts = clock.unix_timestamp();
    assert!(ts > 1_700_000_000);
}
