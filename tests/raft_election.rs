use vf_dst::raft_election::{Heartbeat, RaftElection, RaftError, ServerState, VoteRequest};

#[test]
fn three_servers_elect_a_leader() {
    let mut cluster = RaftElection::new(&[1, 2, 3]);
    assert_eq!(cluster.cluster_size(), 3);
    assert_eq!(cluster.quorum_size(), 2);
    assert_eq!(cluster.get_leader(), None);
    assert_eq!(cluster.run_election(1), Ok(true));
    assert_eq!(cluster.get_state(1), Some(ServerState::Leader));
    assert_eq!(cluster.get_term(1), Some(1));
    assert_eq!(cluster.get_leader(), Some(1));
    let hb = cluster.create_heartbeat(1).unwrap();
    assert_eq!(hb, Heartbeat { term: 1, leader_id: 1 });
    assert_eq!(cluster.handle_heartbeat(3, &hb), Ok(()));
    assert_eq!(cluster.get_state(3), Some(ServerState::Follower));
    assert_eq!(cluster.get_term(3), Some(1));
}

#[test]
fn single_server_leads_at_once() {
    let mut cluster = RaftElection::new(&[7, 7]);
    assert_eq!(cluster.cluster_size(), 1);
    let req = cluster.timeout(7).unwrap();
    assert_eq!(req, VoteRequest { term: 1, candidate_id: 7 });
    assert_eq!(cluster.get_state(7), Some(ServerState::Leader));
}

#[test]
fn votes_are_given_once_per_term() {
    let mut cluster = RaftElection::new(&[1, 2, 3]);
    let r1 = cluster.timeout(1).unwrap();
    let r2 = cluster.timeout(2).unwrap();
    let yes = cluster.handle_vote_request(3, &r1).unwrap();
    assert!(yes.vote_granted);
    let no = cluster.handle_vote_request(3, &r2).unwrap();
    assert!(!no.vote_granted);
    assert_eq!(cluster.handle_vote_response(1, &yes), Ok(true));
    assert_eq!(cluster.create_heartbeat(2), Err(RaftError::NotCandidate));
    assert_eq!(cluster.create_heartbeat(9), Err(RaftError::ServerNotFound));
    assert_eq!(cluster.timeout(9), Err(RaftError::ServerNotFound));
}

#[test]
fn newer_term_turns_a_candidate_into_a_follower() {
    let mut cluster = RaftElection::new(&[1, 2, 3]);
    cluster.timeout(1).unwrap();
    let stale = cluster.handle_heartbeat(1, &Heartbeat { term: 0, leader_id: 2 });
    assert_eq!(stale, Ok(()));
    assert_eq!(cluster.get_state(1), Some(ServerState::Candidate));
    cluster.handle_heartbeat(1, &Heartbeat { term: 5, leader_id: 2 }).unwrap();
    assert_eq!(cluster.get_state(1), Some(ServerState::Follower));
    assert_eq!(cluster.get_term(1), Some(5));
}
