use loadtest::duration::{Duration, MAX_NANOS, NANOS_PER_SEC};

#[test]
fn a_duration_is_seconds_and_nanoseconds() {
    let span = Duration::new(1, 500_000);
    assert_eq!(span.as_secs(), 1);
    assert_eq!(span.subsec_nanos(), 500_000);
    assert_eq!(span.as_nanos(), 1_000_500_000);
}

#[test]
fn whole_seconds_among_the_nanoseconds_are_carried() {
    let span = Duration::new(1, 2_500_000_000);
    assert_eq!(span.as_secs(), 3);
    assert_eq!(span.subsec_nanos(), 500_000_000);
    assert_eq!(span, Duration::new(3, 500_000_000));
}

#[test]
fn zero_is_the_empty_span() {
    assert_eq!(Duration::zero(), Duration::new(0, 0));
    assert_eq!(Duration::zero().as_nanos(), 0);
}

#[test]
fn from_nanos_is_the_inverse_of_as_nanos() {
    for nanos in [0u128, 1, 999_999_999, 1_000_000_000, 1_000_500_000, MAX_NANOS] {
        assert_eq!(Duration::from_nanos(nanos).as_nanos(), nanos);
    }
    assert_eq!(Duration::from_nanos(2_500_000_000), Duration::new(2, 500_000_000));
}

#[test]
fn the_longest_span_is_the_largest_count_of_seconds() {
    let longest = Duration::new(u64::MAX, NANOS_PER_SEC - 1);
    assert_eq!(longest.as_nanos(), MAX_NANOS);
    assert_eq!(longest.as_secs(), u64::MAX);
    assert_eq!(longest.subsec_nanos(), 999_999_999);
}

#[test]
fn durations_are_ordered_by_length() {
    assert!(Duration::new(1, 0) < Duration::new(1, 1));
    assert!(Duration::new(0, 999_999_999) < Duration::new(1, 0));
    assert!(Duration::new(2, 0) > Duration::new(1, 999_999_999));
}

#[test]
fn a_duration_agrees_with_the_standard_one() {
    for (secs, nanos) in [(0u64, 0u32), (1, 500_000), (7, 999_999_999), (3, 2_000_000_001)] {
        let ours = Duration::new(secs, nanos);
        let theirs = std::time::Duration::new(secs, nanos);
        assert_eq!(ours.as_secs(), theirs.as_secs());
        assert_eq!(ours.subsec_nanos(), theirs.subsec_nanos());
        assert_eq!(ours.as_nanos(), theirs.as_nanos());
    }
}

fn to_ms(d: Duration) -> f64 {
    (d.as_secs() as f64 * 1_000f64) + (d.subsec_nanos() as f64 / 1_000_000f64)
}

#[test]
fn exchange_duration_to_ms() {
    assert_eq!(to_ms(Duration::new(1, 500000)), 1000.5f64);
}
