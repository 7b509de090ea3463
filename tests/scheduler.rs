use vf_dst::random::DeterministicRng;
use vf_dst::scheduler::{yield_point, ScheduleDecision, Scheduler};

#[test]
fn test_single_thread() {
    let rng = DeterministicRng::new(12345);
    let mut sched = Scheduler::with_defaults(rng, 1);
    for _ in 0..100 {
        assert_eq!(sched.decide(), ScheduleDecision::Continue);
    }
}

#[test]
fn test_deterministic_scheduling() {
    let rng1 = DeterministicRng::new(42);
    let rng2 = DeterministicRng::new(42);
    let mut sched1 = Scheduler::new(rng1, 4, 500_000);
    let mut sched2 = Scheduler::new(rng2, 4, 500_000);
    for _ in 0..100 {
        assert_eq!(sched1.decide(), sched2.decide());
    }
}

#[test]
fn test_yield_probability() {
    let rng = DeterministicRng::new(12345);
    let mut sched = Scheduler::new(rng, 4, 500_000);
    let mut yields = 0;
    let trials = 1000;
    for _ in 0..trials {
        if sched.decide() != ScheduleDecision::Continue {
            yields += 1;
        }
    }
    let ratio = yields as f64 / trials as f64;
    assert!(
        (0.4..=0.6).contains(&ratio),
        "Expected ~50% yields, got {}%",
        ratio * 100.0
    );
}

#[test]
fn test_force_switch() {
    let rng = DeterministicRng::new(12345);
    let mut sched = Scheduler::with_defaults(rng, 4);
    assert_eq!(sched.current_thread(), 0);
    let new = sched.force_switch();
    assert_ne!(new, 0);
    assert_eq!(sched.current_thread(), new);
}

#[test]
fn test_add_remove_thread() {
    let rng = DeterministicRng::new(12345);
    let mut sched = Scheduler::with_defaults(rng, 2);
    assert_eq!(sched.threads_count(), 2);
    let idx = sched.add_thread();
    assert_eq!(idx, 2);
    assert_eq!(sched.threads_count(), 3);
    sched.remove_thread(1);
    assert_eq!(sched.threads_count(), 2);
}

#[test]
fn test_current_thread_adjustment_on_remove() {
    let rng = DeterministicRng::new(12345);
    let mut sched = Scheduler::with_defaults(rng, 4);
    sched.set_current_thread(3);
    assert_eq!(sched.current_thread(), 3);
    sched.remove_thread(1);
    assert_eq!(sched.current_thread(), 2);
}

#[test]
fn switches_never_pick_the_current_thread() {
    let mut sched = Scheduler::new(DeterministicRng::new(99), 3, 1_000_000);
    for _ in 0..200 {
        let before = sched.current_thread();
        match sched.decide() {
            ScheduleDecision::SwitchTo(t) => {
                assert_ne!(t, before);
                assert!(t < 3);
                assert_eq!(sched.current_thread(), t);
            }
            other => panic!("expected a switch, got {:?}", other),
        }
    }
    assert_eq!(sched.decisions_count(), 200);
}

#[test]
fn removing_the_current_thread_moves_to_the_previous_one() {
    let mut sched = Scheduler::with_defaults(DeterministicRng::new(1), 4);
    sched.set_current_thread(2);
    sched.remove_thread(2);
    assert_eq!(sched.current_thread(), 1);
    sched.set_current_thread(0);
    sched.remove_thread(0);
    assert_eq!(sched.current_thread(), 0);
    sched.set_current_thread(0);
    sched.remove_thread(1);
    assert_eq!(sched.current_thread(), 0);
    assert_eq!(sched.threads_count(), 1);
}

#[test]
fn single_thread_force_switch_stays_on_zero() {
    let mut sched = Scheduler::with_defaults(DeterministicRng::new(1), 1);
    assert_eq!(sched.force_switch(), 0);
    assert_eq!(yield_point(&mut sched), ScheduleDecision::Continue);
    assert_eq!(sched.decisions_count(), 2);
}

#[test]
fn zero_yield_probability_always_continues() {
    let mut sched = Scheduler::new(DeterministicRng::new(6), 8, 0);
    for _ in 0..100 {
        assert_eq!(sched.decide(), ScheduleDecision::Continue);
    }
    assert_eq!(sched.current_thread(), 0);
}
