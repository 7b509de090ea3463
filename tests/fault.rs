use vf_dst::fault::{FaultConfig, FaultInjector, CORRUPTION_PROBABILITY};
use vf_dst::random::DeterministicRng;

#[test]
fn test_no_faults_when_disabled() {
    let rng = DeterministicRng::new(12345);
    let mut injector = FaultInjector::new(rng, FaultConfig::none());
    for _ in 0..1000 {
        assert!(!injector.should_fail());
        assert!(injector.maybe_delay_ns().is_none());
        assert!(!injector.should_crash());
    }
}

#[test]
fn test_deterministic_faults() {
    let rng1 = DeterministicRng::new(42);
    let rng2 = DeterministicRng::new(42);
    let mut inj1 = FaultInjector::new(rng1, FaultConfig::default());
    let mut inj2 = FaultInjector::new(rng2, FaultConfig::default());
    for _ in 0..100 {
        assert_eq!(inj1.should_fail(), inj2.should_fail());
    }
}

#[test]
fn test_fault_probability() {
    let rng = DeterministicRng::new(12345);
    let config = FaultConfig {
        failure_probability: 500_000,
        ..FaultConfig::default()
    };
    let mut injector = FaultInjector::new(rng, config);
    let mut failures = 0;
    let trials = 10000;
    for _ in 0..trials {
        if injector.should_fail() {
            failures += 1;
        }
    }
    let ratio = failures as f64 / trials as f64;
    assert!(
        (0.45..=0.55).contains(&ratio),
        "Expected ~50% failures, got {}%",
        ratio * 100.0
    );
}

#[test]
fn test_delay_injection() {
    let rng = DeterministicRng::new(12345);
    let config = FaultConfig {
        delay_probability: 1_000_000,
        delay_ns_max: 1_000_000,
        ..FaultConfig::default()
    };
    let mut injector = FaultInjector::new(rng, config);
    for _ in 0..100 {
        let delay = injector.maybe_delay_ns();
        assert!(delay.is_some());
        let d = delay.unwrap();
        assert!(d >= 1 && d <= 1_000_000);
    }
}

#[test]
fn fault_test_stats() {
    let rng = DeterministicRng::new(12345);
    let config = FaultConfig {
        failure_probability: 1_000_000,
        ..FaultConfig::default()
    };
    let mut injector = FaultInjector::new(rng, config);
    for _ in 0..10 {
        injector.should_fail();
    }
    let stats = injector.stats();
    assert_eq!(stats.faults_count, 10);
}

#[test]
fn test_corruption() {
    let rng = DeterministicRng::new(12345);
    let mut injector = FaultInjector::with_default_config(rng);
    let mut corrupted_count = 0;
    for _ in 0..100_000 {
        let mut data = [0xAA; 8];
        if injector.maybe_corrupt(&mut data) {
            corrupted_count += 1;
            let diff: u32 = data.iter().map(|&b| (b ^ 0xAA).count_ones()).sum();
            assert_eq!(diff, 1, "Expected exactly one bit flip");
        }
    }
    assert!(
        corrupted_count > 0,
        "Expected some corruptions in 100k trials"
    );
}

#[test]
fn fault_scenario_none_config() {
    let mut injector = FaultInjector::new(DeterministicRng::new(1), FaultConfig::none());
    for _ in 0..1000 {
        assert!(!injector.should_fail());
    }
    for _ in 0..1000 {
        assert_eq!(injector.maybe_delay_ns(), None);
    }
}

#[test]
fn fault_presets_have_the_documented_values() {
    let d = FaultConfig::default();
    assert_eq!((d.failure_probability, d.delay_probability, d.delay_ns_max, d.crash_probability, d.enabled), (10_000, 50_000, 10_000_000, 1_000, true));
    let a = FaultConfig::aggressive();
    assert_eq!((a.failure_probability, a.delay_probability, a.delay_ns_max, a.crash_probability, a.enabled), (100_000, 200_000, 100_000_000, 10_000, true));
    let o = FaultConfig::delays_only();
    assert_eq!((o.failure_probability, o.delay_probability, o.delay_ns_max, o.crash_probability, o.enabled), (0, 200_000, 50_000_000, 0, true));
    let n = FaultConfig::none();
    assert!(!n.enabled);
    assert_eq!(CORRUPTION_PROBABILITY, 100);
}

#[test]
fn certain_crash_counts_every_crash() {
    let config = FaultConfig { crash_probability: 1_000_000, ..FaultConfig::none() };
    let mut injector = FaultInjector::new(DeterministicRng::new(8), FaultConfig { enabled: true, ..config });
    for _ in 0..5 {
        assert!(injector.should_crash());
        assert!(!injector.should_fail());
    }
    assert_eq!(injector.stats().crashes_count, 5);
    assert_eq!(injector.stats().faults_count, 0);
}

#[test]
fn disabling_stops_faults_and_corruption() {
    let config = FaultConfig { failure_probability: 1_000_000, ..FaultConfig::default() };
    let mut injector = FaultInjector::new(DeterministicRng::new(11), config);
    assert!(injector.should_fail());
    injector.set_enabled(false);
    assert!(!injector.config().enabled);
    assert!(!injector.should_fail());
    let mut data = [1u8, 2, 3];
    assert!(!injector.maybe_corrupt(&mut data));
    assert_eq!(data, [1, 2, 3]);
    let mut empty: [u8; 0] = [];
    injector.set_config(FaultConfig::default());
    assert!(!injector.maybe_corrupt(&mut empty));
    assert_eq!(injector.stats().faults_count, 1);
}

#[test]
fn zero_delay_bound_gives_no_delay() {
    let config = FaultConfig { delay_probability: 1_000_000, delay_ns_max: 0, ..FaultConfig::default() };
    let mut injector = FaultInjector::new(DeterministicRng::new(4), config);
    assert_eq!(injector.maybe_delay_ns(), None);
    assert_eq!(injector.stats().delays_count, 0);
}
