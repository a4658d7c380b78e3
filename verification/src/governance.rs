//! Shared governance types.
//!
//! The ecosystem reserves an interface for proposal-based governance; these
//! are the records it exchanges. No governance logic lives in the core yet:
//! the types are carried through as data.

use crate::addr::Addr;
use crate::amount::Amount;
use vstd::prelude::*;

verus! {

/// A governance proposal.
pub struct Proposal {
    pub id: Amount,
    pub description: Vec<u8>,
    pub creator: Addr,
    pub created_at: Amount,
    pub executed: bool,
    pub executed_at: Option<Amount>,
    pub for_votes: Amount,
    pub against_votes: Amount,
    pub total_votes: Amount,
}

/// One cast vote.
pub struct Vote {
    pub voter: Addr,
    pub proposal_id: Amount,
    pub support: bool,
    pub weight: Amount,
    pub voted_at: Amount,
}

/// Where a proposal stands in its lifecycle.
#[derive(Clone, Copy, PartialEq, Eq, Structural, Debug)]
pub enum ProposalState {
    Active,
    Executed,
    Cancelled,
    Expired,
}

} // verus!
