//! The entities of the ledger: voters and proposals.

use vstd::prelude::*;

verus! {

/// A registered voter: a display name and an eligibility flag.
pub struct Voter {
    pub name: String,
    pub eligible: bool,
}

impl Clone for Voter {
    fn clone(&self) -> (r: Self)
        ensures
            r == *self,
    {
        Voter { name: self.name.clone(), eligible: self.eligible }
    }
}

/// A registered proposal: its caller-chosen identifier and a description.
pub struct Proposal {
    pub id: u64,
    pub description: String,
}

impl Clone for Proposal {
    fn clone(&self) -> (r: Self)
        ensures
            r == *self,
    {
        Proposal { id: self.id, description: self.description.clone() }
    }
}

} // verus!
