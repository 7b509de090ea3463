use vf_dst::ssi::{AbortReason, Operation, SsiAction, SsiState, TxnStatus};

#[test]
fn ssi_test_initial_state() {
    let state = SsiState::new(&[1, 2], &[1, 2]);
    assert_eq!(state.txn_status.get(&1), Some(&TxnStatus::NotStarted));
    assert_eq!(state.write_locks.get(&1), Some(&None));
    assert!(state.check_invariants().is_empty());
}

#[test]
fn test_begin_transaction() {
    let state = SsiState::new(&[1, 2], &[1]);
    let next = state.apply(&SsiAction::Begin(1)).unwrap();
    assert_eq!(next.txn_status.get(&1), Some(&TxnStatus::Active));
    assert!(next.check_invariants().is_empty());
}

#[test]
fn test_simple_read_write_commit() {
    let mut state = SsiState::new(&[1], &[1]);
    state = state.apply(&SsiAction::Begin(1)).unwrap();
    state = state.apply(&SsiAction::Write(1, 1)).unwrap();
    state = state.apply(&SsiAction::Read(1, 1)).unwrap();
    state = state.apply(&SsiAction::Commit(1)).unwrap();
    assert_eq!(state.txn_status.get(&1), Some(&TxnStatus::Committed));
    assert!(state.check_invariants().is_empty());
}

#[test]
fn test_concurrent_writers_blocked() {
    let mut state = SsiState::new(&[1, 2], &[1]);
    state = state.apply(&SsiAction::Begin(1)).unwrap();
    state = state.apply(&SsiAction::Write(1, 1)).unwrap();
    state = state.apply(&SsiAction::Begin(2)).unwrap();
    let actions = state.possible_actions();
    assert!(!actions.contains(&SsiAction::Write(2, 1)));
}

#[test]
fn test_dangerous_structure_prevents_commit() {
    let mut state = SsiState::new(&[1, 2], &[1, 2]);
    state = state.apply(&SsiAction::Begin(1)).unwrap();
    state = state.apply(&SsiAction::Begin(2)).unwrap();
    state = state.apply(&SsiAction::Read(1, 1)).unwrap();
    state = state.apply(&SsiAction::Write(2, 1)).unwrap();
    state = state.apply(&SsiAction::Read(2, 2)).unwrap();
    state = state.apply(&SsiAction::Commit(2)).unwrap();
    state = state.apply(&SsiAction::Write(1, 2)).unwrap();
    if state.has_dangerous_structure(1) {
        let actions = state.possible_actions();
        assert!(!actions.contains(&SsiAction::Commit(1)));
    }
    assert!(state.check_invariants().is_empty());
}

#[test]
fn ssi_actions_of_a_fresh_state_and_rejections() {
    let state = SsiState::new(&[1, 2], &[7]);
    let actions = state.possible_actions();
    assert_eq!(actions.len(), 2);
    assert!(actions.contains(&SsiAction::Begin(1)) && actions.contains(&SsiAction::Begin(2)));
    assert!(state.apply(&SsiAction::Commit(1)).is_none());
    assert!(state.apply(&SsiAction::Begin(9)).is_none());
    let active = state.apply(&SsiAction::Begin(1)).unwrap();
    assert_eq!(active.now(), 1);
    assert_eq!(active.txn_snapshot.get(&1), Some(&0));
    let acts = active.possible_actions();
    for a in [SsiAction::Read(1, 7), SsiAction::Write(1, 7), SsiAction::Commit(1), SsiAction::Abort(1), SsiAction::Begin(2)] {
        assert!(acts.contains(&a));
    }
    assert_eq!(acts.len(), 5);
    assert!(active.active_txns().contains(&1));
    assert!(active.committed_txns().is_empty());
}

#[test]
fn ssi_abort_releases_locks_and_reads_see_versions() {
    let mut state = SsiState::new(&[1, 2], &[1]);
    state = state.apply(&SsiAction::Begin(1)).unwrap();
    state = state.apply(&SsiAction::Write(1, 1)).unwrap();
    state = state.apply(&SsiAction::Commit(1)).unwrap();
    assert_eq!(state.write_locks.get(&1), Some(&None));
    state = state.apply(&SsiAction::Begin(2)).unwrap();
    state = state.apply(&SsiAction::Read(2, 1)).unwrap();
    assert_eq!(state.history.last(), Some(&Operation::Read { txn: 2, key: 1, version: Some(1) }));
    assert_eq!(state.latest_version(1, 10), Some(1));
    assert_eq!(state.latest_version(1, 0), None);
    state = state.apply(&SsiAction::Write(2, 1)).unwrap();
    state = state.apply(&SsiAction::Abort(2)).unwrap();
    assert_eq!(state.history.last(), Some(&Operation::Abort { txn: 2, reason: AbortReason::Voluntary }));
    assert_eq!(state.write_locks.get(&1), Some(&None));
    assert!(state.siread_locks.get(&1).unwrap().is_empty());
    assert!(state.is_serializable());
}

#[test]
fn ssi_violations_are_named() {
    let mut state = SsiState::new(&[1], &[1]);
    state = state.apply(&SsiAction::Begin(1)).unwrap();
    state = state.apply(&SsiAction::Commit(1)).unwrap();
    state.in_conflict.insert(1, true);
    state.out_conflict.insert(1, true);
    assert_eq!(state.check_invariants(), vec!["NoCommittedDangerousStructures", "Serializable"]);
    assert!(!state.no_committed_dangerous_structures());
    assert!(state.first_committer_wins());
}
