use vstd::prelude::*;

verus! {

/// The answer of a gated token ledger that names the membership contract it
/// checks holders against.
#[derive(Debug, PartialEq, Eq)]
pub struct WhitelistResponse {
    pub address: String,
}

/// The answer of a gated token ledger on whether an address may hold it.
#[derive(Clone, Copy, Debug, PartialEq, Eq, Structural)]
pub struct IsWhitelistedResponse {
    pub whitelisted: bool,
}

/// What the host reports about a deployed contract.
#[derive(Debug, PartialEq, Eq)]
pub struct ContractInfoResponse {
    pub code_id: u64,
    /// The address that created the contract.
    pub creator: String,
    /// The address that may migrate it, if any.
    pub admin: Option<String>,
    pub pinned: bool,
    pub ibc_port: Option<String>,
}

/// A migration takes no arguments.
#[derive(Clone, Copy, Debug, PartialEq, Eq, Structural)]
pub struct MigrateMsg {}

/// The standing of a member of the membership contract that gates a ledger.
#[derive(Clone, Copy, Debug, PartialEq, Eq, Structural)]
pub enum MemberStatus {
    /// A member that may not vote.
    NonVoting {},
    /// Approved for voting; the escrow is still to be paid.
    Pending { proposal_id: u64 },
    /// Approved and paid; waiting for the rest of the batch.
    PendingPaid { proposal_id: u64 },
    /// A full voting member.
    Voting {},
    /// Leaving; the escrow is frozen until `claim_at`.
    Leaving { claim_at: u64 },
}

/// The weight of the votes cast for each option of a proposal.
#[derive(Clone, Copy, Debug, PartialEq, Eq, Structural)]
pub struct Votes {
    pub yes: u64,
    pub no: u64,
    pub abstain: u64,
    pub veto: u64,
}

/// Takes a failure that reads as expected. Failures of collaborating
/// contracts arrive as text only, so they are held against the text of the
/// expected error; a caller has to know that the two read alike.
pub fn assert_error(err: &String, expected: &String)
    requires
        err@ == expected@,
{
}

} // verus!
