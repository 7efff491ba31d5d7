use vstd::prelude::*;

verus! {

/// Identifier of a proposal (a content identifier minted by the randomness
/// collaborator).
pub type ProposalId = u128;

/// Identifier of the body or campaign that owns a proposal.
pub type ContextId = u128;

/// Identifier of an account.
pub type AccountId = u64;

/// An amount of currency.
pub type Balance = u128;

/// A block height.
pub type BlockNumber = u64;

/// The largest number of proposals that may expire in one block.
pub const MAX_PROPOSALS_PER_BLOCK: usize = 3;

/// The default longest lifetime of a proposal, in blocks.
pub const MAX_PROPOSAL_DURATION: u64 = 864000;

/// Lifecycle of a proposal.
#[derive(Clone, Copy, PartialEq, Eq, Structural, Debug, PartialOrd, Ord, Hash)]
pub enum ProposalState {
    /// Waiting for its start block.
    Init,
    /// Voting is open.
    Active,
    /// Voters approved.
    Accepted,
    /// Voters did not approve.
    Rejected,
    /// Ended without votes.
    Expired,
    /// Aborted by a privileged override.
    Aborted,
    /// An accepted withdrawal whose funds were released.
    Finalized,
}

/// What a proposal is about.
#[derive(Clone, Copy, PartialEq, Eq, Structural, Debug, PartialOrd, Ord, Hash)]
pub enum ProposalType {
    General,
    Multiple,
    Member,
    Withdrawal,
    Spending,
}

/// How votes are counted.
#[derive(Clone, Copy, PartialEq, Eq, Structural, Debug, PartialOrd, Ord, Hash)]
pub enum VotingType {
    /// One member, one vote over the participating votes.
    Simple,
    Token,
    Absolute,
    Quadratic,
    Ranked,
    Conviction,
}

/// The immutable description of a proposal.
#[derive(Clone, Copy, PartialEq, Eq, Structural, Debug)]
pub struct Proposal {
    pub proposal_id: ProposalId,
    pub context_id: ContextId,
    pub proposal_type: ProposalType,
    pub voting_type: VotingType,
    pub start: BlockNumber,
    pub expiry: BlockNumber,
}

/// Title, off-chain content identifier and requested amount of a proposal.
#[derive(Clone, Debug)]
pub struct ProposalMetadata {
    pub title: Vec<u8>,
    pub cid: Vec<u8>,
    /// Zero for all but withdrawal proposals.
    pub amount: Balance,
}

/// Why an operation was refused. A refused operation changes nothing.
#[derive(Clone, Copy, PartialEq, Eq, Structural, Debug)]
pub enum SignalError {
    ProposalEnded,
    ProposalExpired,
    AlreadyVoted,
    ProposalUnknown,
    DAOInactive,
    AuthorizationError,
    OutOfBounds,
    CampaignFailed,
    BalanceInsufficient,
    HashCollision,
    UnknownAccount,
    TooManyProposals,
    OverflowError,
    DivisionError,
}

/// What the campaign collaborator reports about one campaign.
#[derive(Clone, Copy, PartialEq, Eq, Structural, Debug)]
pub struct Campaign {
    pub context_id: ContextId,
    /// Total balance raised by the campaign.
    pub balance: Balance,
    /// Number of contributors.
    pub contributors: u64,
    /// The body that governs the campaign's treasury.
    pub org: ContextId,
}

impl Campaign {
    /// What a campaign that the collaborator does not know reads as.
    pub fn unknown(context_id: ContextId) -> (r: Campaign)
        ensures
            r == empty_campaign(context_id),
    {
        Campaign { context_id, balance: 0, contributors: 0, org: 0 }
    }
}

pub open spec fn empty_campaign(context_id: ContextId) -> Campaign {
    Campaign { context_id, balance: 0, contributors: 0, org: 0 }
}

/// Notifications emitted by the engine, in order.
#[derive(Clone, Copy, PartialEq, Eq, Structural, Debug)]
pub enum Event {
    ProposalCreated { owner: AccountId, context_id: ContextId, proposal_id: ProposalId, amount: Balance, expiry: BlockNumber },
    ProposalVoted { voter: AccountId, proposal_id: ProposalId, vote: bool },
    ProposalApproved { proposal_id: ProposalId },
    ProposalRejected { proposal_id: ProposalId },
    ProposalExpired { proposal_id: ProposalId },
    /// Funds were released: the ledger must unreserve `amount` from the
    /// treasury of body `org`.
    WithdrawalGranted { proposal_id: ProposalId, context_id: ContextId, org: ContextId, amount: Balance },
}

} // verus!
