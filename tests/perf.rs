use vf_dst::perf::{analyze_progress_guarantee, MemoryOverhead, PerfProfile, ProgressGuarantee};

#[test]
fn test_progress_guarantee_ordering() {
    assert!(ProgressGuarantee::WaitFree > ProgressGuarantee::LockFree);
    assert!(ProgressGuarantee::LockFree > ProgressGuarantee::ObstructionFree);
    assert!(ProgressGuarantee::ObstructionFree > ProgressGuarantee::Blocking);
}

#[test]
fn test_analyze_blocking() {
    let code = r#"
fn push(&self, val: T) {
    let guard = self.mutex.lock().unwrap();
    // ...
}
"#;
    assert_eq!(analyze_progress_guarantee(code), ProgressGuarantee::Blocking);
}

#[test]
fn test_analyze_lock_free() {
    let code = r#"
fn push(&self, val: T) {
    loop {
        let head = self.head.load(Ordering::Acquire);
        if self.head.compare_exchange(head, new, Ordering::Release, Ordering::Relaxed).is_ok() {
            break;
        }
    }
}
"#;
    assert_eq!(analyze_progress_guarantee(code), ProgressGuarantee::LockFree);
}

#[test]
fn test_perf_profile() {
    let profile = PerfProfile::new(ProgressGuarantee::LockFree)
        .with_memory_overhead(24)
        .with_note("8 bytes for pointer, 16 bytes for atomic tag");
    assert_eq!(profile.progress, ProgressGuarantee::LockFree);
    assert_eq!(profile.memory_overhead_bytes, 24);
}

#[test]
fn test_memory_overhead() {
    let overhead = MemoryOverhead {
        per_element_bytes: 24,
        fixed_bytes: 8,
        breakdown: vec![
            ("pointer".to_string(), 8),
            ("value".to_string(), 8),
            ("tag".to_string(), 8),
        ],
    };
    assert_eq!(overhead.total_bytes(100), 8 + 24 * 100);
}

#[test]
fn analyze_wait_free_and_default() {
    assert_eq!(analyze_progress_guarantee("announce(op); helping()"), ProgressGuarantee::WaitFree);
    assert_eq!(analyze_progress_guarantee("let x = 1;"), ProgressGuarantee::ObstructionFree);
    assert_eq!(analyze_progress_guarantee(""), ProgressGuarantee::ObstructionFree);
    assert_eq!(analyze_progress_guarantee("RwLock::new(0)"), ProgressGuarantee::Blocking);
}

#[test]
fn at_least_and_descriptions() {
    assert!(ProgressGuarantee::WaitFree.at_least(ProgressGuarantee::Blocking));
    assert!(ProgressGuarantee::LockFree.at_least(ProgressGuarantee::LockFree));
    assert!(!ProgressGuarantee::Blocking.at_least(ProgressGuarantee::ObstructionFree));
    assert_eq!(ProgressGuarantee::LockFree.description(), "At least one thread makes progress");
    let p = PerfProfile::new(ProgressGuarantee::WaitFree).with_helping().with_retry_count_max(8);
    assert!(p.uses_helping);
    assert_eq!(p.retry_count_max, Some(8));
    assert!(p.notes.is_empty());
}
