//! Tests of the table container and of the flattened state snapshot.

use dao_voting::service::VotingService;
use dao_voting::state::{IoState, State};
use dao_voting::table::Table;

#[test]
fn table_insert_get_overwrite_remove() {
    let mut t: Table<u64> = Table::new();
    assert_eq!(t.len(), 0);
    t.insert(1, 10);
    t.insert(2, 20);
    t.insert(1, 11);
    assert_eq!(t.len(), 2);
    assert_eq!(*t.get(1).unwrap(), 11);
    assert_eq!(*t.get(2).unwrap(), 20);
    assert!(t.get(3).is_none());
    t.remove(1);
    assert!(t.get(1).is_none());
    assert_eq!(t.len(), 1);
    t.remove(3);
    assert_eq!(t.len(), 1);
}

#[test]
fn table_duplicate_is_an_exact_copy() {
    let mut t: Table<u64> = Table::new();
    t.insert(7, 70);
    t.insert(8, 80);
    let d = t.duplicate();
    assert_eq!(d.len(), 2);
    assert_eq!(*d.get(7).unwrap(), 70);
    assert_eq!(*d.get(8).unwrap(), 80);
}

#[test]
fn snapshot_preserves_every_pair() {
    let mut state = State::new();
    let mut svc = VotingService::new();
    svc.register_proposal(&mut state, 1, "Budget".to_string());
    svc.register_proposal(&mut state, 2, "Policy".to_string());
    svc.register_voter(&mut state, 9, "N".to_string());
    svc.vote(&mut state, 9, 2);
    let io = IoState::from(state);
    assert!(io.admins.is_empty());
    assert_eq!(io.voters.len(), 1);
    assert_eq!(io.voters[0].0, 9);
    assert_eq!(io.voters[0].1.name, "N");
    assert!(io.voters[0].1.eligible);
    assert_eq!(io.proposals.len(), 2);
    assert!(io
        .proposals
        .iter()
        .any(|(k, p)| *k == 1 && p.id == 1 && p.description == "Budget"));
    assert!(io
        .proposals
        .iter()
        .any(|(k, p)| *k == 2 && p.id == 2 && p.description == "Policy"));
    assert_eq!(io.vote_counts.len(), 2);
    assert!(io.vote_counts.iter().any(|&(k, c)| k == 1 && c == 0));
    assert!(io.vote_counts.iter().any(|&(k, c)| k == 2 && c == 1));
    assert_eq!(io.votes_cast.len(), 1);
    assert_eq!(io.votes_cast[0].0, 9);
    assert_eq!(io.votes_cast[0].1, vec![2]);
}

#[test]
fn snapshot_of_the_empty_state_is_empty() {
    let state = State::new();
    let io = IoState::from(state);
    assert!(io.admins.is_empty());
    assert!(io.voters.is_empty());
    assert!(io.proposals.is_empty());
    assert!(io.vote_counts.is_empty());
    assert!(io.votes_cast.is_empty());
}
