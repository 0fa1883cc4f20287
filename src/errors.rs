use vstd::prelude::*;

verus! {

/// Failures reported by the governance engine.
#[derive(Clone, Copy, Debug, PartialEq, Eq, Structural)]
pub enum TokenGatedVoteContractErrors {
    /// No admin record exists yet.
    ContractNotInitialized,
    /// An admin record already exists.
    ContractAlreadyInitialized,
    /// A proposal with this id already exists.
    ProposalAlreadyExists,
    /// No proposal with this id exists.
    ProposalNotFound,
    /// The user has already voted on this proposal.
    UserAlreadyVoted,
    /// The user holds no governance credential.
    UserCannotVote,
    /// The proposal's voting window does not contain the current time.
    VotingNotActive,
    /// The vote choice is not one of the three accepted symbols.
    InvalidChoice,
    /// The start time is not before the end time.
    StartTimeAfterEnd,
    /// The start time lies before the current time.
    StartTimeInPast,
    /// The voting window is longer than the maximum duration.
    DurationTooLong,
    /// The voting window is shorter than the minimum duration.
    DurationTooShort,
}

impl TokenGatedVoteContractErrors {
    /// The numeric code under which the contract reports this error.
    pub open spec fn spec_code(self) -> u32 {
        match self {
            TokenGatedVoteContractErrors::ContractNotInitialized => 1,
            TokenGatedVoteContractErrors::ContractAlreadyInitialized => 2,
            TokenGatedVoteContractErrors::ProposalAlreadyExists => 3,
            TokenGatedVoteContractErrors::ProposalNotFound => 4,
            TokenGatedVoteContractErrors::UserAlreadyVoted => 5,
            TokenGatedVoteContractErrors::UserCannotVote => 6,
            TokenGatedVoteContractErrors::VotingNotActive => 7,
            TokenGatedVoteContractErrors::InvalidChoice => 8,
            TokenGatedVoteContractErrors::StartTimeAfterEnd => 9,
            TokenGatedVoteContractErrors::StartTimeInPast => 10,
            TokenGatedVoteContractErrors::DurationTooLong => 11,
            TokenGatedVoteContractErrors::DurationTooShort => 12,
        }
    }

    /// The numeric code under which the contract reports this error.
    pub fn code(&self) -> (r: u32)
        ensures
            r == self.spec_code(),
    {
        match self {
            TokenGatedVoteContractErrors::ContractNotInitialized => 1,
            TokenGatedVoteContractErrors::ContractAlreadyInitialized => 2,
            TokenGatedVoteContractErrors::ProposalAlreadyExists => 3,
            TokenGatedVoteContractErrors::ProposalNotFound => 4,
            TokenGatedVoteContractErrors::UserAlreadyVoted => 5,
            TokenGatedVoteContractErrors::UserCannotVote => 6,
            TokenGatedVoteContractErrors::VotingNotActive => 7,
            TokenGatedVoteContractErrors::InvalidChoice => 8,
            TokenGatedVoteContractErrors::StartTimeAfterEnd => 9,
            TokenGatedVoteContractErrors::StartTimeInPast => 10,
            TokenGatedVoteContractErrors::DurationTooLong => 11,
            TokenGatedVoteContractErrors::DurationTooShort => 12,
        }
    }
}

} // verus!
