use vf_dst::env::{DstEnv, EnvCall, EnvOutcome};
use vf_dst::fault::FaultConfig;

#[test]
fn env_test_determinism() {
    let mut env1 = DstEnv::new(42);
    let mut env2 = DstEnv::new(42);
    for _ in 0..100 {
        assert_eq!(env1.rng().gen(), env2.rng().gen());
    }
}

#[test]
fn env_test_different_seeds() {
    let mut env1 = DstEnv::new(42);
    let mut env2 = DstEnv::new(43);
    let seq1: Vec<u64> = (0..10).map(|_| env1.rng().gen()).collect();
    let seq2: Vec<u64> = (0..10).map(|_| env2.rng().gen()).collect();
    assert_ne!(seq1, seq2);
}

#[test]
fn test_with_scheduler() {
    let mut env = DstEnv::with_scheduler(12345, 4);
    assert!(env.scheduler().is_some());
    let sched = env.scheduler().unwrap();
    assert_eq!(sched.threads_count(), 4);
}

#[test]
fn test_fault_config() {
    let mut env = DstEnv::with_fault_config(12345, FaultConfig::none());
    for _ in 0..100 {
        assert!(!env.fault().should_fail());
    }
}

#[test]
fn test_fork_rng() {
    let mut env1 = DstEnv::new(42);
    let mut env2 = DstEnv::new(42);
    let mut forked1 = env1.fork_rng();
    let mut forked2 = env2.fork_rng();
    for _ in 0..10 {
        assert_eq!(forked1.gen(), forked2.gen());
    }
}

#[test]
fn test_step() {
    let mut env = DstEnv::new(12345);
    env.step(1_000_000);
    assert_eq!(env.clock().now_ms(), 1);
    env.step(9_000_000);
    assert_eq!(env.clock().now_ms(), 10);
}

#[test]
fn env_test_stats() {
    let mut env = DstEnv::new(12345);
    let _: u64 = env.rng().gen();
    let _: u64 = env.rng().gen();
    env.clock().advance_ms(100);
    let stats = env.stats();
    assert_eq!(stats.seed, 12345);
    assert_eq!(stats.elapsed_ns, 100_000_000);
    assert_eq!(stats.rng_calls, 2);
}

#[test]
fn test_format_seed() {
    let env = DstEnv::new(12345);
    assert_eq!(env.format_seed(), "DST_SEED=12345");
}

#[test]
fn env_scenario_seed_42_draws_match() {
    let mut env1 = DstEnv::new(42);
    let mut env2 = DstEnv::new(42);
    let a: Vec<u64> = (0..100).map(|_| env1.rng().gen()).collect();
    let b: Vec<u64> = (0..100).map(|_| env2.rng().gen()).collect();
    assert_eq!(a, b);
}

#[test]
fn env_same_calls_same_everything() {
    let mut env1 = DstEnv::with_scheduler(7, 3);
    let mut env2 = DstEnv::with_scheduler(7, 3);
    for i in 0..200u64 {
        assert_eq!(env1.step(1 + i), env2.step(1 + i));
        env1.maybe_delay();
        env2.maybe_delay();
        assert_eq!(env1.fault().should_crash(), env2.fault().should_crash());
        let d1 = env1.scheduler().unwrap().decide();
        let d2 = env2.scheduler().unwrap().decide();
        assert_eq!(d1, d2);
        assert_eq!(env1.clock().now_ns(), env2.clock().now_ns());
    }
    assert_eq!(env1.stats(), env2.stats());
    assert_eq!(env1.stats().scheduler_decisions, 200);
}

#[test]
fn env_scheduler_shifts_the_later_sub_seeds_only() {
    let mut plain = DstEnv::new(99);
    let mut with_sched = DstEnv::with_scheduler(99, 2);
    assert_eq!(plain.rng().gen(), with_sched.rng().gen());
    let mut none = DstEnv::new(99);
    assert!(none.scheduler().is_none());
    assert_eq!(none.stats().scheduler_decisions, 0);
}

#[test]
fn env_stats_line() {
    let mut env = DstEnv::new(12345);
    env.clock().advance_ms(250);
    let _ = env.rng().gen();
    let line = env.stats().to_string();
    assert_eq!(line, "DST_SEED=12345 elapsed=250ms rng_calls=1 faults=0 delays=0 sched_decisions=0");
    assert_eq!(env.seed(), 12345);
}

#[test]
fn env_delay_advances_the_clock_by_the_delay() {
    let config = FaultConfig { delay_probability: 1_000_000, delay_ns_max: 10, ..FaultConfig::none() };
    let mut env = DstEnv::with_fault_config(5, FaultConfig { enabled: true, ..config });
    env.maybe_delay();
    let elapsed = env.clock().now_ns();
    assert!((1..=10).contains(&elapsed));
    assert_eq!(env.stats().delays_injected, 1);
}

#[test]
fn replaying_the_same_calls_gives_the_same_outcomes() {
    let calls = vec![
        EnvCall::Draw,
        EnvCall::Fail,
        EnvCall::Step(1_000),
        EnvCall::Delay,
        EnvCall::Crash,
        EnvCall::Decide,
        EnvCall::Draw,
    ];
    let mut a = DstEnv::with_scheduler(42, 3);
    let mut b = DstEnv::with_scheduler(42, 3);
    let out_a = a.replay(&calls);
    let out_b = b.replay(&calls);
    assert_eq!(out_a.len(), calls.len());
    assert_eq!(out_a, out_b);
    assert_eq!(a.stats(), b.stats());
    let mut plain = DstEnv::new(42);
    let stopped = plain.replay(&vec![EnvCall::Draw, EnvCall::Decide, EnvCall::Draw]);
    assert_eq!(stopped.len(), 1);
    assert!(matches!(stopped[0], EnvOutcome::Value(_)));
    assert_eq!(plain.apply(EnvCall::Step(0)), None);
}
