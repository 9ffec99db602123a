//! The voting service: the operation surface over the state store. Each
//! operation performs one state transition or query; what a transition does
//! is stated by a spec function over the state's view, and each operation's
//! contract ties the new state to exactly that function.

use vstd::prelude::*;

use crate::state::{
    lemma_histories_view_insert, lemma_histories_view_remove, State, StateView,
};
use crate::table::{
    distinct_keys, lemma_pairs_to_map_contains, lemma_pairs_to_map_index, Table,
};
use crate::types::{Proposal, Voter};

verus! {

/// The voting history recorded for `voter`; empty when none is recorded.
pub open spec fn cast_of(s: StateView, voter: u64) -> Seq<u64> {
    if s.votes_cast.contains_key(voter) {
        s.votes_cast[voter]
    } else {
        Seq::empty()
    }
}

/// Whether a vote by `voter` on `proposal_id` passes every check: the voter
/// is registered, marked eligible, and has not yet voted on that proposal.
pub open spec fn vote_allowed(s: StateView, voter: u64, proposal_id: u64) -> bool {
    s.voters.contains_key(voter) && s.voters[voter].eligible && !cast_of(
        s,
        voter,
    ).contains(proposal_id)
}

/// What registering a voter does: the record is stored under the actor's
/// identifier, eligible and with the given name, overwriting any older one.
pub open spec fn register_voter_spec(s: StateView, actor: u64, name: String) -> StateView {
    StateView { voters: s.voters.insert(actor, Voter { name, eligible: true }), ..s }
}

/// What registering a proposal does: the proposal is stored under its own
/// identifier and its tally is (re)set to zero, overwriting any older entry.
pub open spec fn register_proposal_spec(s: StateView, id: u64, description: String) -> StateView {
    StateView {
        proposals: s.proposals.insert(id, Proposal { id, description }),
        vote_counts: s.vote_counts.insert(id, 0),
        ..s
    }
}

/// The state after a history entry for `voter` is created if absent.
pub open spec fn with_history(s: StateView, voter: u64) -> StateView {
    if s.votes_cast.contains_key(voter) {
        s
    } else {
        StateView { votes_cast: s.votes_cast.insert(voter, Seq::empty()), ..s }
    }
}

/// What casting a vote does: when every check passes, the proposal's tally
/// rises by one and the proposal joins the voter's history; otherwise the
/// state is left as it stands. Either way the voter gains an empty history
/// entry if none existed.
pub open spec fn vote_spec(s: StateView, voter: u64, proposal_id: u64) -> StateView {
    let s1 = with_history(s, voter);
    if vote_allowed(s, voter, proposal_id) {
        StateView {
            vote_counts: s1.vote_counts.insert(
                proposal_id,
                (s1.vote_counts[proposal_id] + 1) as u64,
            ),
            votes_cast: s1.votes_cast.insert(voter, s1.votes_cast[voter].push(proposal_id)),
            ..s1
        }
    } else {
        s1
    }
}

/// What removing a voter does: the voter record and the voter's whole
/// history disappear; tallies are never rolled back. Removing an unknown
/// voter changes nothing.
pub open spec fn remove_voter_spec(s: StateView, voter: u64) -> StateView {
    StateView { voters: s.voters.remove(voter), votes_cast: s.votes_cast.remove(voter), ..s }
}

/// Whether some history vector holds `x`.
fn contains_u64(v: &Vec<u64>, x: u64) -> (r: bool)
    ensures
        r == v@.contains(x),
{
    let n: usize = v.len();
    let mut i: usize = 0;
    while i < n
        invariant
            i <= n,
            n == v@.len(),
            forall|j: int| 0 <= j < i ==> v@[j] != x,
        decreases n - i,
    {
        if v[i] == x {
            return true;
        }
        i += 1;
    }
    false
}

/// An element-for-element copy of a history vector.
fn copy_history(v: &Vec<u64>) -> (r: Vec<u64>)
    ensures
        r@ == v@,
{
    let n: usize = v.len();
    let mut r: Vec<u64> = Vec::new();
    let mut i: usize = 0;
    while i < n
        invariant
            i <= n,
            n == v@.len(),
            r@ == v@.take(i as int),
        decreases n - i,
    {
        r.push(v[i]);
        proof {
            assert(r@ =~= v@.take(i as int + 1));
        }
        i += 1;
    }
    proof {
        assert(r@ =~= v@);
    }
    r
}

/// The public operation surface; every call works on the one state store
/// that the host created and passes in by reference.
pub struct VotingService;

impl VotingService {
    /// A handle on the operation surface; the service itself holds nothing.
    pub fn new() -> (r: Self) {
        VotingService
    }

    /// Register (or re-register) a voter: the entry for `actor` is set to
    /// the given name with `eligible` true.
    pub fn register_voter(&mut self, state: &mut State, actor: u64, name: String)
        ensures
            final(state)@ == register_voter_spec(old(state)@, actor, name),
    {
        let voter = Voter { name, eligible: true };
        state.voters.insert(actor, voter);
    }

    /// Register (or re-register) a proposal under `id` and (re)set its
    /// tally to zero; prior votes on a re-registered identifier are
    /// discarded from the tally, not from any voter's history.
    pub fn register_proposal(&mut self, state: &mut State, id: u64, description: String)
        ensures
            final(state)@ == register_proposal_spec(old(state)@, id, description),
    {
        let proposal = Proposal { id, description };
        state.proposals.insert(id, proposal);
        state.vote_counts.insert(id, 0);
    }

    /// Cast a vote. A vote that fails any check (unknown voter, ineligible
    /// voter, duplicate vote) is a silent no-op. A vote that passes every
    /// check demands a tally entry for the proposal — its absence is an
    /// invariant violation, excluded here rather than repaired — and a tally
    /// below the counter's ceiling.
    pub fn vote(&mut self, state: &mut State, voter: u64, proposal_id: u64)
        requires
            vote_allowed(old(state)@, voter, proposal_id) ==> old(state)@.vote_counts.contains_key(
                proposal_id,
            ) && old(state)@.vote_counts[proposal_id] < u64::MAX,
        ensures
            final(state)@ == vote_spec(old(state)@, voter, proposal_id),
    {
        let ghost s0 = state@;
        if !state.votes_cast.contains_key(voter) {
            let empty: Vec<u64> = Vec::new();
            state.votes_cast.insert(voter, empty);
            proof {
                lemma_histories_view_insert(old(state).votes_cast@, voter, empty);
            }
        }
        proof {
            assert(state@ =~~= with_history(s0, voter));
        }
        let ghost s1 = state@;
        let eligible: bool = match state.voters.get(voter) {
            Some(v) => v.eligible,
            None => false,
        };
        let hist_ref = state.votes_cast.get(voter).unwrap();
        let already: bool = contains_u64(hist_ref, proposal_id);
        let mut grown: Vec<u64> = copy_history(hist_ref);
        proof {
            assert(s1.votes_cast[voter] == cast_of(s0, voter));
            assert((eligible && !already) == vote_allowed(s0, voter, proposal_id));
        }
        if eligible && !already {
            let cur: u64 = *state.vote_counts.get(proposal_id).unwrap();
            state.vote_counts.insert(proposal_id, cur + 1);
            grown.push(proposal_id);
            state.votes_cast.insert(voter, grown);
            proof {
                lemma_histories_view_insert(old(state).votes_cast@, voter, grown);
                assert(state@ =~~= vote_spec(s0, voter, proposal_id));
            }
        } else {
            proof {
                assert(state@ =~~= vote_spec(s0, voter, proposal_id));
            }
        }
    }

    /// All proposal records, value for value in the order their identifiers
    /// first entered the proposal mapping.
    pub fn get_proposals(&self, state: &State) -> (r: Vec<Proposal>)
        ensures
            r@.len() == state.proposals.kvs().len(),
            forall|i: int| 0 <= i < r@.len() ==> r@[i] == state.proposals.kvs()[i].1,
            forall|i: int|
                #![trigger state.proposals.kvs()[i]]
                0 <= i < r@.len() ==> state@.proposals.contains_key(state.proposals.kvs()[i].0)
                    && r@[i] == state@.proposals[state.proposals.kvs()[i].0],
            forall|k: u64|
                state@.proposals.contains_key(k) ==> exists|i: int|
                    0 <= i < r@.len() && r@[i] == state@.proposals[k],
    {
        let ps = state.proposals.pairs();
        let n: usize = ps.len();
        let mut r: Vec<Proposal> = Vec::new();
        let mut i: usize = 0;
        while i < n
            invariant
                i <= n,
                n == ps@.len(),
                ps@ == state.proposals.kvs(),
                r@.len() == i,
                forall|j: int| 0 <= j < i ==> r@[j] == ps@[j].1,
            decreases n - i,
        {
            r.push(ps[i].1.clone());
            i += 1;
        }
        proof {
            assert forall|j: int|
                #![trigger state.proposals.kvs()[j]]
                0 <= j < r@.len() implies state@.proposals.contains_key(
                state.proposals.kvs()[j].0,
            ) && r@[j] == state@.proposals[state.proposals.kvs()[j].0] by {
                lemma_pairs_to_map_index(state.proposals.kvs(), j);
            }
            assert forall|k: u64| state@.proposals.contains_key(k) implies exists|j: int|
                0 <= j < r@.len() && r@[j] == state@.proposals[k] by {
                lemma_pairs_to_map_contains(state.proposals.kvs(), k);
                let j = choose|j: int|
                    0 <= j < state.proposals.kvs().len() && state.proposals.kvs()[j].0 == k;
                lemma_pairs_to_map_index(state.proposals.kvs(), j);
                assert(r@[j] == state@.proposals[k]);
            }
        }
        r
    }

    /// A full copy of the proposal-identifier-to-tally mapping.
    pub fn get_vote_counts(&self, state: &State) -> (r: Table<u64>)
        ensures
            r@ == state@.vote_counts,
            r.kvs() == state.vote_counts.kvs(),
    {
        state.vote_counts.duplicate()
    }

    /// A copy of the voter record for `voter_id`, or nothing when the
    /// identifier is not registered.
    pub fn get_voter_info(&self, state: &State, voter_id: u64) -> (r: Option<Voter>)
        ensures
            r == (if state@.voters.contains_key(voter_id) {
                Some(state@.voters[voter_id])
            } else {
                None::<Voter>
            }),
    {
        match state.voters.get(voter_id) {
            Some(v) => Some(v.clone()),
            None => None,
        }
    }

    /// Remove a voter and the voter's whole history; no tally is decremented
    /// and removing an unknown voter is a no-op.
    pub fn remove_voter(&mut self, state: &mut State, voter: u64)
        ensures
            final(state)@ == remove_voter_spec(old(state)@, voter),
    {
        state.voters.remove(voter);
        state.votes_cast.remove(voter);
        proof {
            lemma_histories_view_remove(old(state).votes_cast@, voter);
            assert(state@ =~~= remove_voter_spec(old(state)@, voter));
        }
    }

    /// The proposal identifier with the greatest tally, paired with that
    /// tally, or nothing when no tally entry exists. A tie goes to the
    /// identifier that entered the tally mapping earliest.
    pub fn conclude_voting(&self, state: &State) -> (r: Option<(u64, u64)>)
        ensures
            match r {
                None => state@.vote_counts == Map::<u64, u64>::empty(),
                Some(p) => state@.vote_counts.contains_key(p.0) && state@.vote_counts[p.0] == p.1
                    && forall|k: u64|
                    state@.vote_counts.contains_key(k) ==> state@.vote_counts[k] <= p.1,
            },
    {
        let ps = state.vote_counts.pairs();
        let n: usize = ps.len();
        if n == 0 {
            proof {
                assert(state@.vote_counts =~= Map::<u64, u64>::empty());
            }
            return None;
        }
        let mut best_id: u64 = ps[0].0;
        let mut best: u64 = ps[0].1;
        let mut i: usize = 1;
        while i < n
            invariant
                1 <= i <= n,
                n == ps@.len(),
                ps@ == state.vote_counts.kvs(),
                distinct_keys(ps@),
                exists|j: int| 0 <= j < i && ps@[j] == (best_id, best),
                forall|j: int| 0 <= j < i ==> ps@[j].1 <= best,
            decreases n - i,
        {
            if ps[i].1 > best {
                best_id = ps[i].0;
                best = ps[i].1;
            }
            i += 1;
        }
        proof {
            let j = choose|j: int| 0 <= j < ps@.len() && ps@[j] == (best_id, best);
            lemma_pairs_to_map_index(ps@, j);
            assert forall|k: u64| state@.vote_counts.contains_key(k) implies state@.vote_counts[k]
                <= best by {
                lemma_pairs_to_map_contains(ps@, k);
                let jj = choose|jj: int| 0 <= jj < ps@.len() && ps@[jj].0 == k;
                lemma_pairs_to_map_index(ps@, jj);
            }
        }
        Some((best_id, best))
    }
}

} // verus!
