pub mod contract;
pub mod errors;
pub mod keyed;
pub mod laws;
pub mod model;
pub mod proposal;
pub mod storage;

pub use contract::{TokenGatedVoteContract, TokenGatedVoteContractDataKey};
pub use errors::TokenGatedVoteContractErrors;
pub use proposal::{
    TokenGatedVoteProposalData, TokenGatedVoteProposalStatus, TokenGatedVoteProposalSummary,
    VoteChoice, MAX_PROPOSAL_DURATION, MIN_PROPOSAL_DURATION, PROPOSALS_TTL_EXTENSION,
    PROPOSAL_TTL_BUFFER, VOTE_TTL_EXTENSION,
};
