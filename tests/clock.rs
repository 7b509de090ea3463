use vf_dst::clock::SimClock;

#[test]
fn test_clock_starts_at_zero() {
    let clock = SimClock::new();
    assert_eq!(clock.now_ns(), 0);
}

#[test]
fn test_clock_with_start_time() {
    let clock = SimClock::with_start_time_ns(1_000_000_000);
    assert_eq!(clock.now_ns(), 1_000_000_000);
    assert_eq!(clock.now_ms(), 1_000);
}

#[test]
fn test_advance_time() {
    let mut clock = SimClock::new();
    clock.advance_ns(1_000_000);
    assert_eq!(clock.now_ns(), 1_000_000);
    assert_eq!(clock.now_ms(), 1);
    clock.advance_ms(100);
    assert_eq!(clock.now_ms(), 101);
}

#[test]
fn test_sleep() {
    let mut clock = SimClock::new();
    clock.sleep_ms(50);
    assert_eq!(clock.now_ms(), 50);
    clock.sleep_ns(500_000);
    assert_eq!(clock.now_us(), 50_500);
}

#[test]
fn clock_test_reset() {
    let mut clock = SimClock::new();
    clock.advance_ms(100);
    assert_eq!(clock.now_ms(), 100);
    clock.reset();
    assert_eq!(clock.now_ns(), 0);
}

#[test]
fn test_unit_conversions() {
    let mut clock = SimClock::new();
    clock.advance_ns(1_500_000_000);
    assert_eq!(clock.now_ns(), 1_500_000_000);
    assert_eq!(clock.now_us(), 1_500_000);
    assert_eq!(clock.now_ms(), 1_500);
}

#[test]
fn clock_scenario_advance_and_reset() {
    let mut clock = SimClock::new();
    assert_eq!(clock.now_ns(), 0);
    clock.advance_ms(100);
    assert_eq!(clock.now_ms(), 100);
    clock.advance_ms(1);
    assert_eq!(clock.now_ms(), 101);
    clock.reset();
    assert_eq!(clock.now_ns(), 0);
}

#[test]
fn clock_advance_adds_exactly_and_never_decreases() {
    let mut clock = SimClock::with_start_time_ns(7);
    let mut last = clock.now_ns();
    for d in 1..50u64 {
        clock.advance_ns(d);
        assert_eq!(clock.now_ns(), last + d);
        assert!(clock.now_ns() >= last);
        last = clock.now_ns();
    }
    clock.advance_us(3);
    assert_eq!(clock.now_ns(), last + 3_000);
}

#[test]
fn clock_zero_sleep_is_a_no_op() {
    let mut clock = SimClock::with_start_time_ns(42);
    clock.sleep_ns(0);
    clock.sleep_ms(0);
    assert_eq!(clock.now_ns(), 42);
}

#[test]
fn clock_largest_start_time() {
    let mut clock = SimClock::with_start_time_ns(vf_dst::clock::TIME_NS_MAX - 1);
    clock.advance_ns(1);
    assert_eq!(clock.now_ns(), vf_dst::clock::TIME_NS_MAX);
    assert_eq!(SimClock::default().now_ns(), 0);
}
