use vstd::prelude::*;

use crate::errors::TokenGatedVoteContractErrors;
use crate::proposal::{
    choice_of, proposal_ttl, status_at, tallied, window_check, ProposalView, SummaryView,
    VoteChoice, PROPOSALS_TTL_EXTENSION, VOTE_TTL_EXTENSION,
};
use crate::storage::{horizon, refreshed};

verus! {

/// The whole state of the governance engine, as mathematics.
pub struct GovernanceModel {
    /// The administrator, once initialized.
    pub admin: Option<Seq<char>>,
    /// The governance credential, once initialized.
    pub token: Option<Seq<char>>,
    /// Each proposal's record, by id.
    pub proposals: Map<Seq<char>, ProposalView>,
    /// Each proposal record's storage horizon, by id.
    pub proposal_expiry: Map<Seq<char>, u64>,
    /// The proposal ids in order of creation.
    pub index: Seq<Seq<char>>,
    /// The index's storage horizon, once it has been written.
    pub index_expiry: Option<u64>,
    /// The ids of the proposals each address has voted on.
    pub votes: Map<Seq<char>, Set<Seq<char>>>,
    /// Each vote record's storage horizon, by address.
    pub vote_expiry: Map<Seq<char>, u64>,
}

/// A proposal as created: the given window and description, no votes yet.
pub open spec fn fresh_proposal(description: Seq<char>, start: u64, end: u64) -> ProposalView {
    ProposalView {
        description,
        start_time: start,
        end_time: end,
        total_for: 0,
        total_against: 0,
        total_abstain: 0,
    }
}

/// Voting power reported for a balance: one for any positive balance.
pub open spec fn power_of(balance: i128) -> i128 {
    if balance > 0 {
        1
    } else {
        0
    }
}

impl GovernanceModel {
    /// The state of a fresh deployment, before initialization.
    pub open spec fn empty() -> GovernanceModel {
        GovernanceModel {
            admin: None,
            token: None,
            proposals: Map::empty(),
            proposal_expiry: Map::empty(),
            index: Seq::empty(),
            index_expiry: None,
            votes: Map::empty(),
            vote_expiry: Map::empty(),
        }
    }

    /// Whether `user` has voted on proposal `id`.
    pub open spec fn has_voted(self, user: Seq<char>, id: Seq<char>) -> bool {
        self.votes.contains_key(user) && self.votes[user].contains(id)
    }

    /// The proposals `user` has voted on.
    pub open spec fn voted_ids(self, user: Seq<char>) -> Set<Seq<char>> {
        if self.votes.contains_key(user) {
            self.votes[user]
        } else {
            Set::empty()
        }
    }

    /// The outcome of initialization: it fails once an admin exists.
    pub open spec fn init_outcome(self) -> Result<(), TokenGatedVoteContractErrors> {
        if self.admin is Some {
            Err(TokenGatedVoteContractErrors::ContractAlreadyInitialized)
        } else {
            Ok(())
        }
    }

    /// The state after a successful initialization.
    pub open spec fn after_init(self, admin: Seq<char>, token: Seq<char>) -> GovernanceModel {
        GovernanceModel { admin: Some(admin), token: Some(token), ..self }
    }

    /// The outcome of an admin transfer: it fails before initialization.
    pub open spec fn transfer_outcome(self) -> Result<(), TokenGatedVoteContractErrors> {
        if self.admin is None {
            Err(TokenGatedVoteContractErrors::ContractNotInitialized)
        } else {
            Ok(())
        }
    }

    /// The state after a successful admin transfer.
    pub open spec fn after_transfer(self, new_admin: Seq<char>) -> GovernanceModel {
        GovernanceModel { admin: Some(new_admin), ..self }
    }

    /// The outcome of creating proposal `id` with window `[start, end]` at time `now`.
    pub open spec fn create_outcome(self, now: u64, id: Seq<char>, start: u64, end: u64) -> Result<
        (),
        TokenGatedVoteContractErrors,
    > {
        if self.admin is None {
            Err(TokenGatedVoteContractErrors::ContractNotInitialized)
        } else if window_check(now, start, end) is Err {
            window_check(now, start, end)
        } else if self.proposals.contains_key(id) {
            Err(TokenGatedVoteContractErrors::ProposalAlreadyExists)
        } else {
            Ok(())
        }
    }

    /// The state after a successful creation.
    pub open spec fn after_create(
        self,
        now: u64,
        id: Seq<char>,
        description: Seq<char>,
        start: u64,
        end: u64,
    ) -> GovernanceModel {
        GovernanceModel {
            proposals: self.proposals.insert(id, fresh_proposal(description, start, end)),
            proposal_expiry: self.proposal_expiry.insert(id, horizon(now, proposal_ttl(now, end))),
            index: self.index.push(id),
            index_expiry: Some(refreshed(self.index_expiry, now, PROPOSALS_TTL_EXTENSION)),
            ..self
        }
    }

    /// The outcome of the checks that come before the balance is consulted:
    /// the proposal exists, its window contains `now`, and `user` has not
    /// voted on it.
    pub open spec fn vote_precheck(self, now: u64, user: Seq<char>, id: Seq<char>) -> Result<
        (),
        TokenGatedVoteContractErrors,
    > {
        if !self.proposals.contains_key(id) {
            Err(TokenGatedVoteContractErrors::ProposalNotFound)
        } else if now < self.proposals[id].start_time || now > self.proposals[id].end_time {
            Err(TokenGatedVoteContractErrors::VotingNotActive)
        } else if self.has_voted(user, id) {
            Err(TokenGatedVoteContractErrors::UserAlreadyVoted)
        } else {
            Ok(())
        }
    }

    /// The outcome of a vote by `user` holding `balance`, with the checks in
    /// their fixed order.
    pub open spec fn vote_outcome(
        self,
        now: u64,
        user: Seq<char>,
        id: Seq<char>,
        choice: Seq<char>,
        balance: i128,
    ) -> Result<(), TokenGatedVoteContractErrors> {
        if self.vote_precheck(now, user, id) is Err {
            self.vote_precheck(now, user, id)
        } else if balance <= 0 {
            Err(TokenGatedVoteContractErrors::UserCannotVote)
        } else if choice_of(choice) is None {
            Err(TokenGatedVoteContractErrors::InvalidChoice)
        } else {
            Ok(())
        }
    }

    /// The state after a successful vote: one more in the chosen tally, the
    /// vote recorded, and both entries' horizons extended.
    pub open spec fn after_vote(self, now: u64, user: Seq<char>, id: Seq<char>, choice: VoteChoice) -> GovernanceModel {
        let p = self.proposals[id];
        let old_vote_expiry = if self.vote_expiry.contains_key(user) {
            Some(self.vote_expiry[user])
        } else {
            None
        };
        GovernanceModel {
            proposals: self.proposals.insert(id, tallied(p, choice)),
            proposal_expiry: self.proposal_expiry.insert(
                id,
                refreshed(Some(self.proposal_expiry[id]), now, proposal_ttl(now, p.end_time)),
            ),
            votes: self.votes.insert(user, self.voted_ids(user).insert(id)),
            vote_expiry: self.vote_expiry.insert(user, refreshed(old_vote_expiry, now, VOTE_TTL_EXTENSION)),
            ..self
        }
    }

    /// The listing lines for the ids in `ids`, in their order, skipping ids
    /// without a record.
    pub open spec fn summaries_of(self, ids: Seq<Seq<char>>, now: u64) -> Seq<SummaryView>
        decreases ids.len(),
    {
        if ids.len() == 0 {
            Seq::empty()
        } else {
            let prev = self.summaries_of(ids.drop_last(), now);
            let id = ids.last();
            if self.proposals.contains_key(id) {
                prev.push(
                    SummaryView {
                        id,
                        description: self.proposals[id].description,
                        status: status_at(now, self.proposals[id]),
                    },
                )
            } else {
                prev
            }
        }
    }

    /// The listing of all proposals at time `now`, in order of creation.
    pub open spec fn summaries(self, now: u64) -> Seq<SummaryView> {
        self.summaries_of(self.index, now)
    }

    /// For each proposal, in order of creation: its id, whether `user` has
    /// voted on it, and the voting power that `balance` gives.
    pub open spec fn user_rows(self, user: Seq<char>, balance: i128) -> Seq<(Seq<char>, bool, i128)> {
        self.index.map_values(|id: Seq<char>| (id, self.has_voted(user, id), power_of(balance)))
    }

    /// The index lists each proposal exactly once, and every stored record
    /// and vote record has a horizon.
    pub open spec fn consistent(self) -> bool {
        &&& self.index.no_duplicates()
        &&& forall|i: int| 0 <= i < self.index.len() ==> self.proposals.contains_key(#[trigger] self.index[i])
        &&& forall|id: Seq<char>| #[trigger] self.proposals.contains_key(id) ==> self.index.contains(id)
        &&& self.proposal_expiry.dom() == self.proposals.dom()
        &&& self.vote_expiry.dom() == self.votes.dom()
    }

    /// Whether the authorization of `signer` is the one that proposal
    /// creation and admin transfer require.
    pub open spec fn authorizes(self, signer: Seq<char>) -> bool {
        self.admin == Some(signer)
    }
}

/// A fresh deployment is consistent.
pub proof fn lemma_empty_consistent()
    ensures
        GovernanceModel::empty().consistent(),
{
    let m = GovernanceModel::empty();
    assert(m.proposal_expiry.dom() =~= m.proposals.dom());
    assert(m.vote_expiry.dom() =~= m.votes.dom());
}

/// A successful creation keeps the state consistent.
pub proof fn lemma_create_consistent(
    m: GovernanceModel,
    now: u64,
    id: Seq<char>,
    description: Seq<char>,
    start: u64,
    end: u64,
)
    requires
        m.consistent(),
        m.create_outcome(now, id, start, end) is Ok,
    ensures
        m.after_create(now, id, description, start, end).consistent(),
{
    let m1 = m.after_create(now, id, description, start, end);
    assert(!m.index.contains(id)) by {
        if m.index.contains(id) {
            let i = choose|i: int| 0 <= i < m.index.len() && m.index[i] == id;
            assert(m.proposals.contains_key(m.index[i]));
        }
    }
    assert forall|i: int, j: int| 0 <= i < m1.index.len() && 0 <= j < m1.index.len() && i != j implies m1.index[i] != m1.index[j] by {
        if i < m.index.len() && j < m.index.len() {
        } else if i < m.index.len() {
            assert(m.index.contains(m.index[i]));
        } else {
            assert(m.index.contains(m.index[j]));
        }
    }
    assert forall|i: int| 0 <= i < m1.index.len() implies m1.proposals.contains_key(#[trigger] m1.index[i]) by {
        if i < m.index.len() {
            assert(m.proposals.contains_key(m.index[i]));
        }
    }
    assert forall|x: Seq<char>| #[trigger] m1.proposals.contains_key(x) implies m1.index.contains(x) by {
        if x == id {
            assert(m1.index[m.index.len() as int] == id);
        } else {
            assert(m.index.contains(x));
            let i = choose|i: int| 0 <= i < m.index.len() && m.index[i] == x;
            assert(m1.index[i] == x);
        }
    }
    assert(m1.proposal_expiry.dom() =~= m1.proposals.dom());
}

/// A successful vote keeps the state consistent.
pub proof fn lemma_vote_consistent(m: GovernanceModel, now: u64, user: Seq<char>, id: Seq<char>, choice: VoteChoice)
    requires
        m.consistent(),
        m.proposals.contains_key(id),
    ensures
        m.after_vote(now, user, id, choice).consistent(),
{
    let m1 = m.after_vote(now, user, id, choice);
    assert(m1.proposals.dom() =~= m.proposals.dom());
    assert(m1.proposal_expiry.dom() =~= m1.proposals.dom());
    assert(m1.vote_expiry.dom() =~= m1.votes.dom());
    assert forall|i: int| 0 <= i < m1.index.len() implies m1.proposals.contains_key(#[trigger] m1.index[i]) by {
        assert(m.proposals.contains_key(m.index[i]));
    }
    assert forall|x: Seq<char>| #[trigger] m1.proposals.contains_key(x) implies m1.index.contains(x) by {
        assert(m.proposals.contains_key(x));
    }
}

} // verus!
