use vstd::prelude::*;

use crate::model::{fresh_proposal, GovernanceModel};
use crate::errors::TokenGatedVoteContractErrors;
use crate::proposal::{
    choice_of, status_at, tallied, window_check, SummaryView, TokenGatedVoteProposalStatus,
    VoteChoice, MAX_PROPOSAL_DURATION, MIN_PROPOSAL_DURATION,
};

verus! {

/// Creating a proposal with a well-formed window that starts no earlier than
/// now succeeds on an initialized deployment when the id is new; the new
/// proposal then closes the listing, and its status there is `Pending`
/// exactly at the times before its start.
pub proof fn lemma_valid_window_creates_pending_proposal(
    m: GovernanceModel,
    now: u64,
    id: Seq<char>,
    description: Seq<char>,
    start: u64,
    end: u64,
    t: u64,
)
    requires
        m.admin is Some,
        !m.proposals.contains_key(id),
        now <= start < end,
        MIN_PROPOSAL_DURATION <= end - start <= MAX_PROPOSAL_DURATION,
    ensures
        m.create_outcome(now, id, start, end) is Ok,
        ({
            let listing = m.after_create(now, id, description, start, end).summaries(t);
            &&& listing.len() > 0
            &&& listing.last() == SummaryView {
                id,
                description,
                status: status_at(t, fresh_proposal(description, start, end)),
            }
            &&& (listing.last().status == TokenGatedVoteProposalStatus::Pending <==> t < start)
        }),
{
    let m1 = m.after_create(now, id, description, start, end);
    assert(m1.index.last() == id);
    assert(m1.index.len() > 0);
}

/// Creating the same id a second time fails with `ProposalAlreadyExists`,
/// whatever valid window it asks for; the first creation left the id in
/// the index once, with a record holding no votes.
pub proof fn lemma_duplicate_id_rejected(
    m: GovernanceModel,
    now: u64,
    id: Seq<char>,
    description: Seq<char>,
    start: u64,
    end: u64,
    now2: u64,
    start2: u64,
    end2: u64,
)
    requires
        m.consistent(),
        m.create_outcome(now, id, start, end) is Ok,
        window_check(now2, start2, end2) is Ok,
    ensures
        ({
            let m1 = m.after_create(now, id, description, start, end);
            &&& m1.create_outcome(now2, id, start2, end2) == Err::<(), TokenGatedVoteContractErrors>(
                TokenGatedVoteContractErrors::ProposalAlreadyExists,
            )
            &&& m1.index.len() == m.index.len() + 1
            &&& m1.index.no_duplicates()
            &&& m1.proposals[id] == fresh_proposal(description, start, end)
        }),
{
    crate::model::lemma_create_consistent(m, now, id, description, start, end);
}

/// The voting window is inclusive at both ends: for a user who may
/// otherwise vote, a vote succeeds exactly when `start <= now <= end`, and
/// fails with `VotingNotActive` otherwise.
pub proof fn lemma_voting_window_inclusive(
    m: GovernanceModel,
    now: u64,
    user: Seq<char>,
    id: Seq<char>,
    choice: Seq<char>,
    balance: i128,
)
    requires
        m.proposals.contains_key(id),
        !m.has_voted(user, id),
        balance > 0,
        choice_of(choice) is Some,
    ensures
        m.vote_outcome(now, user, id, choice, balance) is Ok <==> m.proposals[id].start_time <= now
            <= m.proposals[id].end_time,
        !(m.proposals[id].start_time <= now <= m.proposals[id].end_time) ==> m.vote_outcome(
            now,
            user,
            id,
            choice,
            balance,
        ) == Err::<(), TokenGatedVoteContractErrors>(TokenGatedVoteContractErrors::VotingNotActive),
{
}

/// An accepted vote adds exactly one to the chosen tally and leaves the
/// other tallies, the description and the window as they were (below the
/// largest tally value, where counting saturates).
pub proof fn lemma_vote_counts_once(
    m: GovernanceModel,
    now: u64,
    user: Seq<char>,
    id: Seq<char>,
    choice: VoteChoice,
)
    requires
        m.proposals.contains_key(id),
        m.proposals[id].total_for < i128::MAX,
        m.proposals[id].total_against < i128::MAX,
        m.proposals[id].total_abstain < i128::MAX,
    ensures
        ({
            let p = m.proposals[id];
            let q = m.after_vote(now, user, id, choice).proposals[id];
            &&& q.description == p.description
            &&& q.start_time == p.start_time
            &&& q.end_time == p.end_time
            &&& q.total_for == p.total_for + if choice == VoteChoice::For { 1int } else { 0int }
            &&& q.total_against == p.total_against + if choice == VoteChoice::Against { 1int } else { 0int }
            &&& q.total_abstain == p.total_abstain + if choice == VoteChoice::Abstain { 1int } else { 0int }
        }),
{
}

/// After a successful vote, the same user's next vote on the same proposal
/// within its window fails with `UserAlreadyVoted`, whatever its choice
/// and balance; the tallies hold the first vote only.
pub proof fn lemma_second_vote_rejected(
    m: GovernanceModel,
    now: u64,
    user: Seq<char>,
    id: Seq<char>,
    choice: Seq<char>,
    balance: i128,
    now2: u64,
    choice2: Seq<char>,
    balance2: i128,
)
    requires
        m.vote_outcome(now, user, id, choice, balance) is Ok,
        m.proposals[id].start_time <= now2 <= m.proposals[id].end_time,
    ensures
        ({
            let m1 = m.after_vote(now, user, id, choice_of(choice)->Some_0);
            &&& m1.vote_outcome(now2, user, id, choice2, balance2) == Err::<(), TokenGatedVoteContractErrors>(
                TokenGatedVoteContractErrors::UserAlreadyVoted,
            )
            &&& m1.proposals[id] == tallied(m.proposals[id], choice_of(choice)->Some_0)
        }),
{
    let m1 = m.after_vote(now, user, id, choice_of(choice)->Some_0);
    assert(m1.votes[user].contains(id));
}

/// A user without a positive balance who passes the earlier checks is
/// refused with `UserCannotVote`.
pub proof fn lemma_no_balance_no_vote(
    m: GovernanceModel,
    now: u64,
    user: Seq<char>,
    id: Seq<char>,
    choice: Seq<char>,
    balance: i128,
)
    requires
        m.vote_precheck(now, user, id) is Ok,
        balance <= 0,
    ensures
        m.vote_outcome(now, user, id, choice, balance) == Err::<(), TokenGatedVoteContractErrors>(
            TokenGatedVoteContractErrors::UserCannotVote,
        ),
{
}

/// An eligible user who passes the earlier checks but names a choice other
/// than `FOR`, `AGAINST` and `ABSTAIN` is refused with `InvalidChoice`.
pub proof fn lemma_unknown_choice_rejected(
    m: GovernanceModel,
    now: u64,
    user: Seq<char>,
    id: Seq<char>,
    choice: Seq<char>,
    balance: i128,
)
    requires
        m.vote_precheck(now, user, id) is Ok,
        balance > 0,
        choice_of(choice) is None,
    ensures
        m.vote_outcome(now, user, id, choice, balance) == Err::<(), TokenGatedVoteContractErrors>(
            TokenGatedVoteContractErrors::InvalidChoice,
        ),
{
}

/// After a successful admin transfer, the new admin's authorization is the
/// one that proposal creation requires, and the former admin's no longer
/// is (unless the two are the same address). Proposals and votes stay
/// as they were.
pub proof fn lemma_transfer_moves_authority(m: GovernanceModel, new_admin: Seq<char>)
    requires
        m.transfer_outcome() is Ok,
    ensures
        m.after_transfer(new_admin).authorizes(new_admin),
        m.admin->Some_0 != new_admin ==> !m.after_transfer(new_admin).authorizes(m.admin->Some_0),
        m.after_transfer(new_admin).proposals == m.proposals,
        m.after_transfer(new_admin).votes == m.votes,
{
}

} // verus!
