//! The state store: one value owning every entity collection, created once
//! by the host and passed by reference into each operation, together with
//! its mathematical view and the flattened snapshot form.

use vstd::prelude::*;

use crate::table::{distinct_keys, pairs_to_map, Table};
use crate::types::{Proposal, Voter};

verus! {

/// The histories map with each vector of cast votes read as a sequence.
pub open spec fn histories_view(m: Map<u64, Vec<u64>>) -> Map<u64, Seq<u64>> {
    m.map_values(|v: Vec<u64>| v@)
}

/// What a `State` denotes: each collection as a mathematical value.
#[verifier::ext_equal]
pub struct StateView {
    pub admins: Seq<u64>,
    pub voters: Map<u64, Voter>,
    pub proposals: Map<u64, Proposal>,
    pub vote_counts: Map<u64, u64>,
    pub votes_cast: Map<u64, Seq<u64>>,
}

/// The view of a freshly initialized state: every collection empty.
pub open spec fn empty_state() -> StateView {
    StateView {
        admins: Seq::empty(),
        voters: Map::empty(),
        proposals: Map::empty(),
        vote_counts: Map::empty(),
        votes_cast: Map::empty(),
    }
}

/// The store of the whole ledger. Voters and histories are keyed by the
/// voter's identifier, proposals and tallies by the proposal's identifier.
pub struct State {
    pub admins: Vec<u64>,
    pub voters: Table<Voter>,
    pub proposals: Table<Proposal>,
    pub vote_counts: Table<u64>,
    pub votes_cast: Table<Vec<u64>>,
}

impl View for State {
    type V = StateView;

    open spec fn view(&self) -> StateView {
        StateView {
            admins: self.admins@,
            voters: self.voters@,
            proposals: self.proposals@,
            vote_counts: self.vote_counts@,
            votes_cast: histories_view(self.votes_cast@),
        }
    }
}

/// Reading the histories commutes with inserting one history.
pub proof fn lemma_histories_view_insert(m: Map<u64, Vec<u64>>, k: u64, v: Vec<u64>)
    ensures
        histories_view(m.insert(k, v)) == histories_view(m).insert(k, v@),
{
    assert(histories_view(m.insert(k, v)) =~= histories_view(m).insert(k, v@));
}

/// Reading the histories commutes with removing one history.
pub proof fn lemma_histories_view_remove(m: Map<u64, Vec<u64>>, k: u64)
    ensures
        histories_view(m.remove(k)) == histories_view(m).remove(k),
{
    assert(histories_view(m.remove(k)) =~= histories_view(m).remove(k));
}

impl State {
    /// An empty state: all mappings empty, admin list empty.
    pub fn new() -> (r: Self)
        ensures
            r@ == empty_state(),
    {
        let r = State {
            admins: Vec::new(),
            voters: Table::new(),
            proposals: Table::new(),
            vote_counts: Table::new(),
            votes_cast: Table::new(),
        };
        proof {
            assert(r@ =~~= empty_state());
        }
        r
    }
}

/// The state flattened for the outside world: each keyed mapping as a
/// sequence of key-value pairs, plus the admin list.
pub struct IoState {
    pub admins: Vec<u64>,
    pub voters: Vec<(u64, Voter)>,
    pub proposals: Vec<(u64, Proposal)>,
    pub vote_counts: Vec<(u64, u64)>,
    pub votes_cast: Vec<(u64, Vec<u64>)>,
}

impl IoState {
    /// Flatten a state into plain sequences. Every key-value pair of every
    /// mapping is preserved and the pair keys stay distinct, so the snapshot
    /// denotes exactly the state it came from.
    pub fn from(value: State) -> (r: Self)
        ensures
            r.admins@ == value.admins@,
            r.voters@ == value.voters.kvs(),
            r.proposals@ == value.proposals.kvs(),
            r.vote_counts@ == value.vote_counts.kvs(),
            r.votes_cast@ == value.votes_cast.kvs(),
            distinct_keys(r.voters@),
            distinct_keys(r.proposals@),
            distinct_keys(r.vote_counts@),
            distinct_keys(r.votes_cast@),
            pairs_to_map(r.voters@) == value@.voters,
            pairs_to_map(r.proposals@) == value@.proposals,
            pairs_to_map(r.vote_counts@) == value@.vote_counts,
            histories_view(pairs_to_map(r.votes_cast@)) == value@.votes_cast,
    {
        let State { admins, voters, proposals, vote_counts, votes_cast } = value;
        IoState {
            admins,
            voters: voters.into_pairs(),
            proposals: proposals.into_pairs(),
            vote_counts: vote_counts.into_pairs(),
            votes_cast: votes_cast.into_pairs(),
        }
    }
}

} // verus!
