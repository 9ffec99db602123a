//! Laws of the service, stated and proved over the spec transitions that
//! the operations' contracts are written against.

use vstd::prelude::*;

use crate::service::{
    cast_of, register_proposal_spec, register_voter_spec, remove_voter_spec, vote_allowed,
    vote_spec, with_history,
};
use crate::state::{empty_state, StateView};
use crate::types::Voter;

verus! {

/// The tally keys coincide with the registered proposal identifiers.
pub open spec fn tallies_match(s: StateView) -> bool {
    s.vote_counts.dom() == s.proposals.dom()
}

/// A freshly initialized state has matching (empty) tallies and proposals.
pub proof fn lemma_empty_state_tallies_match()
    ensures
        tallies_match(empty_state()),
{
    assert(empty_state().vote_counts.dom() =~= empty_state().proposals.dom());
}

/// Every operation keeps the tally keys equal to the proposal identifiers;
/// for a vote this needs the tally entry that the vote itself demands.
pub proof fn lemma_operations_preserve_tallies_match(
    s: StateView,
    a: u64,
    p: u64,
    name: String,
    description: String,
)
    requires
        tallies_match(s),
    ensures
        tallies_match(register_voter_spec(s, a, name)),
        tallies_match(register_proposal_spec(s, p, description)),
        tallies_match(remove_voter_spec(s, a)),
        (s.vote_counts.contains_key(p) || !vote_allowed(s, a, p)) ==> tallies_match(
            vote_spec(s, a, p),
        ),
{
    assert(register_proposal_spec(s, p, description).vote_counts.dom() =~= register_proposal_spec(
        s,
        p,
        description,
    ).proposals.dom());
    if s.vote_counts.contains_key(p) && vote_allowed(s, a, p) {
        assert(vote_spec(s, a, p).vote_counts.dom() =~= s.vote_counts.dom());
    }
}

/// Registering a proposal creates (or resets) its tally entry at zero and
/// leaves every other tally entry alone; since no operation ever drops a
/// tally key, a registered proposal keeps its tally entry — never a stray,
/// key-less tally — until the proposal is re-registered.
pub proof fn lemma_register_proposal_tally(s: StateView, id: u64, description: String)
    ensures
        register_proposal_spec(s, id, description).vote_counts.contains_key(id),
        register_proposal_spec(s, id, description).vote_counts[id] == 0,
        forall|k: u64|
            k != id && s.vote_counts.contains_key(k) ==> register_proposal_spec(
                s,
                id,
                description,
            ).vote_counts.contains_key(k) && register_proposal_spec(
                s,
                id,
                description,
            ).vote_counts[k] == s.vote_counts[k],
{
}

/// Voter registration and removal never touch the tallies, and a vote
/// neither adds nor drops a tally key.
pub proof fn lemma_tally_keys_persist(s: StateView, a: u64, p: u64, name: String)
    requires
        vote_allowed(s, a, p) ==> s.vote_counts.contains_key(p),
    ensures
        register_voter_spec(s, a, name).vote_counts == s.vote_counts,
        remove_voter_spec(s, a).vote_counts == s.vote_counts,
        forall|k: u64|
            vote_spec(s, a, p).vote_counts.contains_key(k) == s.vote_counts.contains_key(k),
{
}

/// After `register_voter(a, name)` the voter queries back as present,
/// under that name and eligible.
pub proof fn lemma_register_voter_visible(s: StateView, a: u64, name: String)
    ensures
        register_voter_spec(s, a, name).voters.contains_key(a),
        register_voter_spec(s, a, name).voters[a] == (Voter { name, eligible: true }),
{
}

/// A vote followed at once by the same vote changes nothing further: the
/// whole state, the tally for the proposal in particular, is exactly what
/// the first vote left — incremented once, not twice.
pub proof fn lemma_vote_idempotent(s: StateView, a: u64, p: u64)
    ensures
        vote_spec(vote_spec(s, a, p), a, p) == vote_spec(s, a, p),
        vote_allowed(s, a, p) && s.vote_counts.contains_key(p) && s.vote_counts[p] < u64::MAX
            ==> vote_spec(s, a, p).vote_counts[p] == s.vote_counts[p] + 1,
{
    let s1 = vote_spec(s, a, p);
    if vote_allowed(s, a, p) {
        let before = cast_of(s, a);
        assert(s1.votes_cast.contains_key(a));
        assert(s1.votes_cast[a] == before.push(p));
        assert(s1.votes_cast[a][before.len() as int] == p);
        assert(s1.votes_cast[a].contains(p));
        assert(!vote_allowed(s1, a, p));
        assert(with_history(s1, a) == s1);
    } else {
        if s.votes_cast.contains_key(a) {
            assert(s1 == s);
        } else {
            assert(cast_of(s1, a) == cast_of(s, a));
            assert(!vote_allowed(s1, a, p));
            assert(with_history(s1, a) == s1);
        }
    }
}

/// A vote by an unregistered voter leaves the tallies, the voter records,
/// the proposals and the admin list unchanged; in particular the voter
/// still queries back as absent. (As in every vote, an empty history entry
/// is created for the voter if none existed.)
pub proof fn lemma_unregistered_vote_is_noop(s: StateView, a: u64, p: u64)
    requires
        !s.voters.contains_key(a),
    ensures
        vote_spec(s, a, p).vote_counts == s.vote_counts,
        vote_spec(s, a, p).voters == s.voters,
        !vote_spec(s, a, p).voters.contains_key(a),
        vote_spec(s, a, p).proposals == s.proposals,
        vote_spec(s, a, p).admins == s.admins,
{
}

/// Removing a voter — after any number of votes — drops the voter record
/// and the voter's history, and nothing else: every tally stays exactly as
/// it stood; tallies are never rolled back.
pub proof fn lemma_remove_voter_keeps_tallies(s: StateView, a: u64)
    ensures
        remove_voter_spec(s, a).vote_counts == s.vote_counts,
        !remove_voter_spec(s, a).voters.contains_key(a),
        !remove_voter_spec(s, a).votes_cast.contains_key(a),
        remove_voter_spec(s, a).proposals == s.proposals,
        remove_voter_spec(s, a).admins == s.admins,
{
}

} // verus!
