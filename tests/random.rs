use vf_dst::random::{DeterministicRng, PROBABILITY_SCALE};

#[test]
fn random_test_determinism() {
    let mut rng1 = DeterministicRng::new(42);
    let mut rng2 = DeterministicRng::new(42);
    for _ in 0..100 {
        assert_eq!(rng1.gen(), rng2.gen());
    }
}

#[test]
fn random_test_different_seeds() {
    let mut rng1 = DeterministicRng::new(42);
    let mut rng2 = DeterministicRng::new(43);
    let seq1: Vec<u64> = (0..10).map(|_| rng1.gen()).collect();
    let seq2: Vec<u64> = (0..10).map(|_| rng2.gen()).collect();
    assert_ne!(seq1, seq2);
}

#[test]
fn test_gen_range() {
    let mut rng = DeterministicRng::new(12345);
    for _ in 0..100 {
        let val = rng.gen_range(0..10);
        assert!(val < 10);
    }
}

#[test]
fn test_gen_bool() {
    let mut rng = DeterministicRng::new(12345);
    for _ in 0..10 {
        assert!(!rng.gen_bool(0));
    }
    for _ in 0..10 {
        assert!(rng.gen_bool(PROBABILITY_SCALE));
    }
}

#[test]
fn test_shuffle() {
    let mut rng = DeterministicRng::new(12345);
    let mut data = vec![1, 2, 3, 4, 5];
    let before = data.clone();
    rng.shuffle(&mut data);
    rng.reset();
    let mut data2 = before.clone();
    rng.shuffle(&mut data2);
    assert_eq!(data, data2);
}

#[test]
fn test_fork() {
    let mut rng = DeterministicRng::new(12345);
    let forked = rng.fork();
    assert_ne!(forked.seed(), 12345);
    let mut rng2 = DeterministicRng::new(12345);
    let forked2 = rng2.fork();
    assert_eq!(forked.seed(), forked2.seed());
}

#[test]
fn random_test_reset() {
    let mut rng = DeterministicRng::new(12345);
    let first_value: u64 = rng.gen();
    for _ in 0..100 {
        let _: u64 = rng.gen();
    }
    rng.reset();
    assert_eq!(rng.gen(), first_value);
}

#[test]
fn test_calls_count() {
    let mut rng = DeterministicRng::new(12345);
    assert_eq!(rng.calls_count(), 0);
    let _: u64 = rng.gen();
    assert_eq!(rng.calls_count(), 1);
    let _ = rng.gen_range(0..10);
    assert_eq!(rng.calls_count(), 2);
}

#[test]
fn shuffle_keeps_the_elements() {
    let mut rng = DeterministicRng::new(9);
    let mut data: Vec<u32> = (0..20).collect();
    rng.shuffle(&mut data);
    let mut sorted = data.clone();
    sorted.sort();
    assert_eq!(sorted, (0..20).collect::<Vec<u32>>());
    assert_ne!(data, (0..20).collect::<Vec<u32>>());
    assert_eq!(rng.calls_count(), 1);
}

#[test]
fn choose_element_picks_from_the_slice() {
    let mut rng = DeterministicRng::new(5);
    let empty: [u64; 0] = [];
    assert!(rng.choose_element(&empty).is_none());
    assert_eq!(rng.calls_count(), 1);
    let items = [10u64, 20, 30];
    for _ in 0..50 {
        let picked = *rng.choose_element(&items).unwrap();
        assert!(items.contains(&picked));
    }
}

#[test]
fn gen_range_inclusive_stays_in_bounds() {
    let mut rng = DeterministicRng::new(77);
    for _ in 0..200 {
        let v = rng.gen_range_inclusive(1, 3);
        assert!((1..=3).contains(&v));
    }
    assert_eq!(rng.gen_range_inclusive(5, 5), 5);
}

#[test]
fn every_operation_counts_one_call() {
    let mut rng = DeterministicRng::new(3);
    let _ = rng.gen();
    let _ = rng.gen_bool(PROBABILITY_SCALE);
    let _ = rng.gen_range_inclusive(0, 9);
    let _ = rng.fork();
    assert_eq!(rng.calls_count(), 4);
    rng.reset();
    assert_eq!(rng.calls_count(), 0);
    assert_eq!(rng.seed(), 3);
}
