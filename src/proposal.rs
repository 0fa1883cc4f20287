use vstd::prelude::*;

use crate::errors::TokenGatedVoteContractErrors;

verus! {

/// Longest voting window a proposal may have, in seconds (about fifteen days).
pub const MAX_PROPOSAL_DURATION: u64 = 1292000;

/// Shortest voting window a proposal may have, in seconds (about five days).
pub const MIN_PROPOSAL_DURATION: u64 = 432000;

/// Retention given to the proposal index on every append, and the least
/// retention a proposal record ever receives.
pub const PROPOSALS_TTL_EXTENSION: u64 = 2_100_000;

/// Retention a proposal record keeps beyond the end of its voting window.
pub const PROPOSAL_TTL_BUFFER: u64 = 604_800;

/// Retention given to a voter's record on every vote.
pub const VOTE_TTL_EXTENSION: u64 = 1_600_000;

/// The stored record of one proposal.
#[derive(Debug)]
pub struct TokenGatedVoteProposalData {
    pub description: String,
    pub start_time: u64,
    pub end_time: u64,
    pub total_for: i128,
    pub total_against: i128,
    pub total_abstain: i128,
}

/// The mathematical content of a proposal record.
pub struct ProposalView {
    pub description: Seq<char>,
    pub start_time: u64,
    pub end_time: u64,
    pub total_for: i128,
    pub total_against: i128,
    pub total_abstain: i128,
}

impl View for TokenGatedVoteProposalData {
    type V = ProposalView;

    open spec fn view(&self) -> ProposalView {
        ProposalView {
            description: self.description@,
            start_time: self.start_time,
            end_time: self.end_time,
            total_for: self.total_for,
            total_against: self.total_against,
            total_abstain: self.total_abstain,
        }
    }
}

impl Clone for TokenGatedVoteProposalData {
    fn clone(&self) -> (r: Self)
        ensures
            r@ == self@,
    {
        TokenGatedVoteProposalData {
            description: self.description.clone(),
            start_time: self.start_time,
            end_time: self.end_time,
            total_for: self.total_for,
            total_against: self.total_against,
            total_abstain: self.total_abstain,
        }
    }
}

/// Where the current time stands relative to a proposal's voting window.
#[derive(Clone, Copy, Debug, PartialEq, Eq, Structural)]
pub enum TokenGatedVoteProposalStatus {
    /// The window has not opened yet.
    Pending,
    /// The window is open, both ends included.
    Active,
    /// The window has closed.
    Ended,
}

/// One line of the proposal listing.
#[derive(Clone, Debug)]
pub struct TokenGatedVoteProposalSummary {
    pub id: String,
    pub description: String,
    pub status: TokenGatedVoteProposalStatus,
}

/// The mathematical content of a listing line.
pub struct SummaryView {
    pub id: Seq<char>,
    pub description: Seq<char>,
    pub status: TokenGatedVoteProposalStatus,
}

impl View for TokenGatedVoteProposalSummary {
    type V = SummaryView;

    open spec fn view(&self) -> SummaryView {
        SummaryView { id: self.id@, description: self.description@, status: self.status }
    }
}

/// One of the three accepted ways to vote.
#[derive(Clone, Copy, Debug, PartialEq, Eq, Structural)]
pub enum VoteChoice {
    For,
    Against,
    Abstain,
}

/// The choice that a vote symbol names, if it names one.
pub open spec fn choice_of(symbol: Seq<char>) -> Option<VoteChoice> {
    if symbol == "FOR"@ {
        Some(VoteChoice::For)
    } else if symbol == "AGAINST"@ {
        Some(VoteChoice::Against)
    } else if symbol == "ABSTAIN"@ {
        Some(VoteChoice::Abstain)
    } else {
        None
    }
}

impl VoteChoice {
    /// Decodes a vote symbol; any symbol other than `FOR`, `AGAINST` and
    /// `ABSTAIN` is rejected.
    pub fn from_symbol(symbol: &String) -> (r: Option<VoteChoice>)
        ensures
            r == choice_of(symbol@),
    {
        if *symbol == String::from_str("FOR") {
            Some(VoteChoice::For)
        } else if *symbol == String::from_str("AGAINST") {
            Some(VoteChoice::Against)
        } else if *symbol == String::from_str("ABSTAIN") {
            Some(VoteChoice::Abstain)
        } else {
            None
        }
    }
}

/// A tally after one more vote, held at the largest value once it is reached.
pub open spec fn bumped(total: i128) -> i128 {
    if total < i128::MAX {
        (total + 1) as i128
    } else {
        total
    }
}

/// Adds one vote to a tally, saturating at the largest value.
pub fn bump_tally(total: i128) -> (r: i128)
    ensures
        r == bumped(total),
{
    if total < i128::MAX {
        total + 1
    } else {
        total
    }
}

/// The record after one vote with the given choice.
pub open spec fn tallied(p: ProposalView, choice: VoteChoice) -> ProposalView {
    match choice {
        VoteChoice::For => ProposalView { total_for: bumped(p.total_for), ..p },
        VoteChoice::Against => ProposalView { total_against: bumped(p.total_against), ..p },
        VoteChoice::Abstain => ProposalView { total_abstain: bumped(p.total_abstain), ..p },
    }
}

/// The status of a proposal at time `now`.
pub open spec fn status_at(now: u64, p: ProposalView) -> TokenGatedVoteProposalStatus {
    if now < p.start_time {
        TokenGatedVoteProposalStatus::Pending
    } else if now <= p.end_time {
        TokenGatedVoteProposalStatus::Active
    } else {
        TokenGatedVoteProposalStatus::Ended
    }
}

/// The outcome of checking a voting window `[start, end]` at time `now`:
/// the first violated rule, in a fixed order, or success.
pub open spec fn window_check(now: u64, start: u64, end: u64) -> Result<(), TokenGatedVoteContractErrors> {
    if start >= end {
        Err(TokenGatedVoteContractErrors::StartTimeAfterEnd)
    } else if start < now {
        Err(TokenGatedVoteContractErrors::StartTimeInPast)
    } else if end - start > MAX_PROPOSAL_DURATION {
        Err(TokenGatedVoteContractErrors::DurationTooLong)
    } else if end - start < MIN_PROPOSAL_DURATION {
        Err(TokenGatedVoteContractErrors::DurationTooShort)
    } else {
        Ok(())
    }
}

/// `a + b`, held at `u64::MAX` when it would exceed it.
pub open spec fn sat_add(a: u64, b: u64) -> u64 {
    if a + b > u64::MAX {
        u64::MAX
    } else {
        (a + b) as u64
    }
}

/// The retention a proposal record receives at time `now`: the time left
/// until the end of its window plus a buffer, and never less than the base
/// extension.
pub open spec fn proposal_ttl(now: u64, end_time: u64) -> u64 {
    let remaining: u64 = if end_time > now { (end_time - now) as u64 } else { 0 };
    let wanted = sat_add(remaining, PROPOSAL_TTL_BUFFER);
    if wanted >= PROPOSALS_TTL_EXTENSION {
        wanted
    } else {
        PROPOSALS_TTL_EXTENSION
    }
}

} // verus!
