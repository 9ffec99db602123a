//! Scenario tests for the voting service: registration, voting, removal,
//! queries, and the documented silent no-ops.

use dao_voting::service::VotingService;
use dao_voting::state::State;

#[test]
fn register_voter_then_query() {
    let mut state = State::new();
    let mut svc = VotingService::new();
    svc.register_voter(&mut state, 5, "N".to_string());
    let info = svc.get_voter_info(&state, 5).unwrap();
    assert_eq!(info.name, "N");
    assert!(info.eligible);
}

#[test]
fn reregister_voter_overwrites_name() {
    let mut state = State::new();
    let mut svc = VotingService::new();
    svc.register_voter(&mut state, 5, "First".to_string());
    svc.register_voter(&mut state, 5, "Second".to_string());
    let info = svc.get_voter_info(&state, 5).unwrap();
    assert_eq!(info.name, "Second");
    assert!(info.eligible);
}

#[test]
fn tally_key_exists_for_every_registered_proposal() {
    let mut state = State::new();
    let mut svc = VotingService::new();
    svc.register_proposal(&mut state, 10, "A".to_string());
    svc.register_proposal(&mut state, 20, "B".to_string());
    let counts = svc.get_vote_counts(&state);
    assert_eq!(counts.len(), 2);
    assert_eq!(*counts.get(10).unwrap(), 0);
    assert_eq!(*counts.get(20).unwrap(), 0);
}

#[test]
fn reregistering_a_proposal_resets_its_tally() {
    let mut state = State::new();
    let mut svc = VotingService::new();
    svc.register_proposal(&mut state, 1, "Budget".to_string());
    svc.register_voter(&mut state, 9, "N".to_string());
    svc.vote(&mut state, 9, 1);
    assert_eq!(*svc.get_vote_counts(&state).get(1).unwrap(), 1);
    svc.register_proposal(&mut state, 1, "Budget again".to_string());
    let counts = svc.get_vote_counts(&state);
    assert_eq!(*counts.get(1).unwrap(), 0);
    assert!(counts.contains_key(1));
}

#[test]
fn duplicate_vote_counts_once() {
    let mut state = State::new();
    let mut svc = VotingService::new();
    svc.register_proposal(&mut state, 1, "Budget".to_string());
    svc.register_voter(&mut state, 7, "N".to_string());
    svc.vote(&mut state, 7, 1);
    svc.vote(&mut state, 7, 1);
    let counts = svc.get_vote_counts(&state);
    assert_eq!(*counts.get(1).unwrap(), 1);
}

#[test]
fn unregistered_voter_vote_is_a_silent_noop() {
    let mut state = State::new();
    let mut svc = VotingService::new();
    svc.register_proposal(&mut state, 1, "Budget".to_string());
    svc.vote(&mut state, 42, 1);
    let counts = svc.get_vote_counts(&state);
    assert_eq!(*counts.get(1).unwrap(), 0);
    assert!(svc.get_voter_info(&state, 42).is_none());
}

#[test]
fn removed_voter_is_absent_but_tally_stays() {
    let mut state = State::new();
    let mut svc = VotingService::new();
    svc.register_proposal(&mut state, 3, "Policy".to_string());
    svc.register_voter(&mut state, 8, "N".to_string());
    svc.vote(&mut state, 8, 3);
    svc.remove_voter(&mut state, 8);
    assert!(svc.get_voter_info(&state, 8).is_none());
    assert_eq!(*svc.get_vote_counts(&state).get(3).unwrap(), 1);
}

#[test]
fn removing_an_unknown_voter_changes_nothing() {
    let mut state = State::new();
    let mut svc = VotingService::new();
    svc.register_voter(&mut state, 1, "N".to_string());
    svc.remove_voter(&mut state, 2);
    assert!(svc.get_voter_info(&state, 1).is_some());
    assert!(svc.get_voter_info(&state, 2).is_none());
}

#[test]
fn removed_voter_may_vote_again_after_reregistering() {
    // Removal drops the history, so a re-registered voter's vote counts anew.
    let mut state = State::new();
    let mut svc = VotingService::new();
    svc.register_proposal(&mut state, 1, "Budget".to_string());
    svc.register_voter(&mut state, 4, "N".to_string());
    svc.vote(&mut state, 4, 1);
    svc.remove_voter(&mut state, 4);
    svc.register_voter(&mut state, 4, "N".to_string());
    svc.vote(&mut state, 4, 1);
    assert_eq!(*svc.get_vote_counts(&state).get(1).unwrap(), 2);
}

#[test]
fn two_proposals_one_voter_tie_scenario() {
    let mut state = State::new();
    let mut svc = VotingService::new();
    svc.register_proposal(&mut state, 1, "Budget".to_string());
    svc.register_proposal(&mut state, 2, "Policy".to_string());
    svc.register_voter(&mut state, 100, "N".to_string());
    svc.vote(&mut state, 100, 1);
    svc.vote(&mut state, 100, 2);
    svc.vote(&mut state, 100, 1);
    let counts = svc.get_vote_counts(&state);
    assert_eq!(counts.len(), 2);
    assert_eq!(*counts.get(1).unwrap(), 1);
    assert_eq!(*counts.get(2).unwrap(), 1);
    assert_eq!(svc.get_voter_info(&state, 100).unwrap().name, "N");
    let winner = svc.conclude_voting(&state).unwrap();
    assert!(winner == (1, 1) || winner == (2, 1));
}

#[test]
fn vote_on_empty_state_leaves_it_empty() {
    let mut state = State::new();
    let mut svc = VotingService::new();
    svc.vote(&mut state, 1, 1);
    assert!(svc.conclude_voting(&state).is_none());
    assert_eq!(svc.get_vote_counts(&state).len(), 0);
    assert!(svc.get_proposals(&state).is_empty());
    assert!(svc.get_voter_info(&state, 1).is_none());
}

#[test]
fn conclude_voting_picks_the_maximum() {
    let mut state = State::new();
    let mut svc = VotingService::new();
    svc.register_proposal(&mut state, 1, "Budget".to_string());
    svc.register_proposal(&mut state, 2, "Policy".to_string());
    svc.register_voter(&mut state, 1, "A".to_string());
    svc.register_voter(&mut state, 2, "B".to_string());
    svc.register_voter(&mut state, 3, "C".to_string());
    svc.vote(&mut state, 1, 2);
    svc.vote(&mut state, 2, 2);
    svc.vote(&mut state, 3, 1);
    assert_eq!(svc.conclude_voting(&state), Some((2, 2)));
}

#[test]
fn get_proposals_returns_every_record() {
    let mut state = State::new();
    let mut svc = VotingService::new();
    svc.register_proposal(&mut state, 1, "Budget".to_string());
    svc.register_proposal(&mut state, 2, "Policy".to_string());
    let props = svc.get_proposals(&state);
    assert_eq!(props.len(), 2);
    assert!(props.iter().any(|p| p.id == 1 && p.description == "Budget"));
    assert!(props.iter().any(|p| p.id == 2 && p.description == "Policy"));
}
