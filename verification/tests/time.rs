use ublox_sockets::time::{Duration, Instant};

#[test]
fn seconds_count_ticks_of_the_clock() {
    let second = embassy_time::TICK_HZ;
    assert_eq!(Duration::from_secs(0).ticks, 0);
    assert_eq!(Duration::from_secs(1).ticks, second);
    assert_eq!(Duration::from_secs(15), Duration::from_ticks(15 * second));
}

#[test]
fn longest_span_of_seconds_fits() {
    let secs = 1_000_000_000u64;
    assert_eq!(Duration::from_secs(secs).ticks, secs * embassy_time::TICK_HZ);
}

#[test]
fn now_is_what_the_clock_shows() {
    let before = embassy_time::Instant::now().as_ticks();
    embassy_time::MockDriver::get().advance(embassy_time::Duration::from_ticks(123));
    assert!(Instant::now().ticks >= before + 123);
    assert!(Instant::now().ticks <= embassy_time::Instant::now().as_ticks());
}

#[test]
fn later_instant_is_the_sum() {
    assert_eq!(Instant::from_ticks(7).after(Duration::from_ticks(5)), Instant::from_ticks(12));
}

#[test]
fn later_instant_stops_at_the_last() {
    let last = Instant::from_ticks(u64::MAX);
    assert_eq!(Instant::from_ticks(u64::MAX - 1).after(Duration::from_ticks(1)), last);
    assert_eq!(Instant::from_ticks(u64::MAX - 1).after(Duration::from_ticks(2)), last);
}

#[test]
fn duration_since_is_the_difference() {
    let early = Instant::from_ticks(10);
    let late = Instant::from_ticks(25);
    assert_eq!(late.checked_duration_since(early), Some(Duration::from_ticks(15)));
    assert_eq!(early.checked_duration_since(early), Some(Duration::from_ticks(0)));
    assert_eq!(early.checked_duration_since(late), None);
}

#[test]
fn elapsed_is_monotone() {
    let start = Instant::from_ticks(10);
    let span = Duration::from_ticks(5);
    assert!(!Instant::from_ticks(9).has_elapsed(start, span));
    assert!(!Instant::from_ticks(14).has_elapsed(start, span));
    assert!(Instant::from_ticks(15).has_elapsed(start, span));
    assert!(Instant::from_ticks(16).has_elapsed(start, span));
}
