use vstd::prelude::*;

use crate::errors::TokenGatedVoteContractErrors;
use crate::keyed::{
    find_key, keyed_map, keys_unique, lemma_keyed_absent, lemma_keyed_at, lemma_keyed_push,
    lemma_keyed_update,
};
use crate::model::{
    fresh_proposal, lemma_create_consistent, lemma_empty_consistent, lemma_vote_consistent,
    power_of, GovernanceModel,
};
use crate::proposal::{
    bump_tally, choice_of, proposal_ttl, status_at, tallied, window_check, ProposalView,
    TokenGatedVoteProposalData, TokenGatedVoteProposalStatus, TokenGatedVoteProposalSummary,
    VoteChoice, MAX_PROPOSAL_DURATION, MIN_PROPOSAL_DURATION, PROPOSAL_TTL_BUFFER,
    PROPOSALS_TTL_EXTENSION, VOTE_TTL_EXTENSION,
};
use crate::storage::{horizon, refresh, Stored};

verus! {

/// The storage keys under which the contract keeps its state.
pub enum TokenGatedVoteContractDataKey {
    /// The administrator's address.
    Admin,
    /// The governance credential's address.
    Token,
    /// The record of the proposal with this id.
    Proposal(String),
    /// The index of all proposal ids.
    Proposals,
    /// The vote record of the user with this address.
    Votes(String),
}

/// The view of an optional address.
pub open spec fn opt_view(o: Option<String>) -> Option<Seq<char>> {
    match o {
        Some(s) => Some(s@),
        None => None,
    }
}

/// The set of ids that a vote record lists.
pub open spec fn id_set(ids: Seq<String>) -> Set<Seq<char>> {
    Set::new(|x: Seq<char>| exists|i: int| 0 <= i < ids.len() && #[trigger] ids[i]@ == x)
}

/// Whether a vote record lists `id`.
fn lists_id(ids: &Vec<String>, id: &String) -> (r: bool)
    ensures
        r == id_set(ids@).contains(id@),
{
    let mut i: usize = 0;
    while i < ids.len()
        invariant
            i <= ids@.len(),
            forall|j: int| 0 <= j < i ==> #[trigger] ids@[j]@ != id@,
        decreases ids@.len() - i,
    {
        if ids[i] == *id {
            return true;
        }
        i = i + 1;
    }
    false
}

/// The governance engine: the admin record, the proposal store with its
/// index, and the vote ledger, each persistent entry with its horizon.
pub struct TokenGatedVoteContract {
    admin: Option<String>,
    token: Option<String>,
    proposals: Vec<(String, Stored<TokenGatedVoteProposalData>)>,
    index: Vec<String>,
    index_expires_at: Option<u64>,
    votes: Vec<(String, Stored<Vec<String>>)>,
}

impl TokenGatedVoteContract {
    pub closed spec fn proposal_entries(&self) -> Seq<(Seq<char>, ProposalView)> {
        self.proposals@.map_values(
            |e: (String, Stored<TokenGatedVoteProposalData>)| (e.0@, e.1.value@),
        )
    }

    pub closed spec fn proposal_expiry_entries(&self) -> Seq<(Seq<char>, u64)> {
        self.proposals@.map_values(
            |e: (String, Stored<TokenGatedVoteProposalData>)| (e.0@, e.1.expires_at),
        )
    }

    pub closed spec fn vote_entries(&self) -> Seq<(Seq<char>, Set<Seq<char>>)> {
        self.votes@.map_values(|e: (String, Stored<Vec<String>>)| (e.0@, id_set(e.1.value@)))
    }

    pub closed spec fn vote_expiry_entries(&self) -> Seq<(Seq<char>, u64)> {
        self.votes@.map_values(|e: (String, Stored<Vec<String>>)| (e.0@, e.1.expires_at))
    }

    /// Well-formedness: no two proposal records and no two vote records share a key.
    pub closed spec fn wf(&self) -> bool {
        &&& keys_unique(self.proposal_entries())
        &&& keys_unique(self.proposal_expiry_entries())
        &&& keys_unique(self.vote_entries())
        &&& keys_unique(self.vote_expiry_entries())
        &&& self@.consistent()
    }
}

impl TokenGatedVoteContract {
    /// Computes the retention of a proposal record at a ledger time.
    pub fn calculate_proposal_ttl(ledger_time: u64, proposal_end_time: u64) -> (r: u64)
        ensures
            r == proposal_ttl(ledger_time, proposal_end_time),
            r >= PROPOSALS_TTL_EXTENSION,
            proposal_end_time >= ledger_time ==> r >= (proposal_end_time - ledger_time)
                + PROPOSAL_TTL_BUFFER || r == u64::MAX,
    {
        let proposal_duration: u64 = if proposal_end_time > ledger_time {
            proposal_end_time - ledger_time
        } else {
            0
        };
        let min_ttl = proposal_duration.saturating_add(PROPOSAL_TTL_BUFFER);
        if min_ttl >= PROPOSALS_TTL_EXTENSION {
            min_ttl
        } else {
            PROPOSALS_TTL_EXTENSION
        }
    }

    /// Computes the status of a proposal at a ledger time.
    pub fn compute_proposal_status(ledger_time: u64, proposal: &TokenGatedVoteProposalData) -> (r:
        TokenGatedVoteProposalStatus)
        ensures
            r == status_at(ledger_time, proposal@),
    {
        if ledger_time < proposal.start_time {
            TokenGatedVoteProposalStatus::Pending
        } else if ledger_time <= proposal.end_time {
            TokenGatedVoteProposalStatus::Active
        } else {
            TokenGatedVoteProposalStatus::Ended
        }
    }

    /// Checks a proposed voting window against the ledger time and the duration
    /// bounds.
    pub fn validate_proposal_times(ledger_time: u64, start_time: u64, end_time: u64) -> (r: Result<
        (),
        TokenGatedVoteContractErrors,
    >)
        ensures
            r == window_check(ledger_time, start_time, end_time),
            r is Ok <==> (ledger_time <= start_time < end_time && MIN_PROPOSAL_DURATION <= end_time
                - start_time <= MAX_PROPOSAL_DURATION),
    {
        if start_time >= end_time {
            return Err(TokenGatedVoteContractErrors::StartTimeAfterEnd);
        }
        if start_time < ledger_time {
            return Err(TokenGatedVoteContractErrors::StartTimeInPast);
        }
        let duration = end_time - start_time;
        if duration > MAX_PROPOSAL_DURATION {
            return Err(TokenGatedVoteContractErrors::DurationTooLong);
        }
        if duration < MIN_PROPOSAL_DURATION {
            return Err(TokenGatedVoteContractErrors::DurationTooShort);
        }
        Ok(())
    }
}

impl View for TokenGatedVoteContract {
    type V = GovernanceModel;

    closed spec fn view(&self) -> GovernanceModel {
        GovernanceModel {
            admin: opt_view(self.admin),
            token: opt_view(self.token),
            proposals: keyed_map(self.proposal_entries()),
            proposal_expiry: keyed_map(self.proposal_expiry_entries()),
            index: self.index@.map_values(|s: String| s@),
            index_expiry: self.index_expires_at,
            votes: keyed_map(self.vote_entries()),
            vote_expiry: keyed_map(self.vote_expiry_entries()),
        }
    }
}

impl TokenGatedVoteContract {
    /// A fresh deployment: no admin record and empty storage.
    pub fn new() -> (r: Self)
        ensures
            r.wf(),
            r@ == GovernanceModel::empty(),
    {
        let r = TokenGatedVoteContract {
            admin: None,
            token: None,
            proposals: Vec::new(),
            index: Vec::new(),
            index_expires_at: None,
            votes: Vec::new(),
        };
        assert(r@.proposals =~= Map::empty());
        assert(r@.proposal_expiry =~= Map::empty());
        assert(r@.votes =~= Map::empty());
        assert(r@.vote_expiry =~= Map::empty());
        assert(r@.index =~= Seq::empty());
        proof {
            lemma_empty_consistent();
        }
        r
    }

    /// Records the administrator and the governance credential; only the
    /// first call on a deployment succeeds.
    pub fn init(&mut self, admin: String, token: String) -> (r: Result<(), TokenGatedVoteContractErrors>)
        requires
            old(self).wf(),
        ensures
            final(self).wf(),
            r == old(self)@.init_outcome(),
            r is Ok ==> final(self)@ == old(self)@.after_init(admin@, token@),
            r is Err ==> *final(self) == *old(self),
    {
        if self.admin.is_some() {
            return Err(TokenGatedVoteContractErrors::ContractAlreadyInitialized);
        }
        self.admin = Some(admin);
        self.token = Some(token);
        Ok(())
    }

    /// The address whose authorization proposal creation and admin transfer require.
    pub fn admin(&self) -> (r: Result<String, TokenGatedVoteContractErrors>)
        ensures
            match r {
                Ok(a) => self@.admin == Some(a@),
                Err(e) => self@.admin is None && e == TokenGatedVoteContractErrors::ContractNotInitialized,
            },
    {
        match &self.admin {
            Some(a) => Ok(a.clone()),
            None => Err(TokenGatedVoteContractErrors::ContractNotInitialized),
        }
    }

    /// Whether the authorization of `signer` is the one that proposal
    /// creation and admin transfer require.
    pub fn authorizes(&self, signer: &String) -> (r: bool)
        ensures
            r == self@.authorizes(signer@),
    {
        match &self.admin {
            Some(a) => *a == *signer,
            None => false,
        }
    }

    /// The address of the governance credential whose holders may vote.
    pub fn token(&self) -> (r: Result<String, TokenGatedVoteContractErrors>)
        ensures
            match r {
                Ok(t) => self@.token == Some(t@),
                Err(e) => self@.token is None && e == TokenGatedVoteContractErrors::ContractNotInitialized,
            },
    {
        match &self.token {
            Some(t) => Ok(t.clone()),
            None => Err(TokenGatedVoteContractErrors::ContractNotInitialized),
        }
    }

    /// Hands the admin role to `new_admin`, effective at once. The caller
    /// must hold the authorization of the current admin (see `admin`).
    pub fn transfer_admin(&mut self, new_admin: String) -> (r: Result<(), TokenGatedVoteContractErrors>)
        requires
            old(self).wf(),
        ensures
            final(self).wf(),
            r == old(self)@.transfer_outcome(),
            r is Ok ==> final(self)@ == old(self)@.after_transfer(new_admin@),
            r is Err ==> *final(self) == *old(self),
    {
        if self.admin.is_none() {
            return Err(TokenGatedVoteContractErrors::ContractNotInitialized);
        }
        self.admin = Some(new_admin);
        Ok(())
    }

    /// Creates proposal `id` with voting window `[start_time, end_time]` at
    /// ledger time `ledger_time`. The caller must hold the authorization of
    /// the admin (see `admin`).
    pub fn create_proposal(
        &mut self,
        ledger_time: u64,
        id: String,
        description: String,
        start_time: u64,
        end_time: u64,
    ) -> (r: Result<(), TokenGatedVoteContractErrors>)
        requires
            old(self).wf(),
        ensures
            final(self).wf(),
            r == old(self)@.create_outcome(ledger_time, id@, start_time, end_time),
            r is Ok ==> final(self)@ == old(self)@.after_create(
                ledger_time,
                id@,
                description@,
                start_time,
                end_time,
            ),
            r is Err ==> *final(self) == *old(self),
    {
        if self.admin.is_none() {
            return Err(TokenGatedVoteContractErrors::ContractNotInitialized);
        }
        match Self::validate_proposal_times(ledger_time, start_time, end_time) {
            Err(e) => {
                return Err(e);
            },
            Ok(()) => {},
        }
        match find_key(&self.proposals, &id) {
            Some(i) => {
                proof {
                    lemma_keyed_at(self.proposal_entries(), i as int);
                }
                return Err(TokenGatedVoteContractErrors::ProposalAlreadyExists);
            },
            None => {},
        }
        proof {
            assert forall|i: int| 0 <= i < self.proposal_entries().len() implies #[trigger] self.proposal_entries()[i].0 != id@ by {
                assert(self.proposals@[i].0@ != id@);
            }
            lemma_keyed_absent(self.proposal_entries(), id@);
            assert forall|i: int| 0 <= i < self.proposal_expiry_entries().len() implies #[trigger] self.proposal_expiry_entries()[i].0 != id@ by {
                assert(self.proposals@[i].0@ != id@);
            }
            lemma_keyed_absent(self.proposal_expiry_entries(), id@);
        }
        let ghost old_self = *self;
        let ttl = Self::calculate_proposal_ttl(ledger_time, end_time);
        let data = TokenGatedVoteProposalData {
            description,
            start_time,
            end_time,
            total_for: 0,
            total_against: 0,
            total_abstain: 0,
        };
        let key = id.clone();
        self.proposals.push((key, Stored { value: data, expires_at: ledger_time.saturating_add(ttl) }));
        self.index.push(id);
        self.index_expires_at = Some(refresh(self.index_expires_at, ledger_time, PROPOSALS_TTL_EXTENSION));
        proof {
            let pv = fresh_proposal(description@, start_time, end_time);
            lemma_keyed_push(old_self.proposal_entries(), id@, pv);
            assert(self.proposal_entries() =~= old_self.proposal_entries().push((id@, pv)));
            let h = horizon(ledger_time, proposal_ttl(ledger_time, end_time));
            lemma_keyed_push(old_self.proposal_expiry_entries(), id@, h);
            assert(self.proposal_expiry_entries() =~= old_self.proposal_expiry_entries().push((id@, h)));
            assert(self@.index =~= old_self@.index.push(id@));
            assert(self.vote_entries() =~= old_self.vote_entries());
            assert(self.vote_expiry_entries() =~= old_self.vote_expiry_entries());
            lemma_create_consistent(old_self@, ledger_time, id@, description@, start_time, end_time);
        }
        Ok(())
    }
    /// Runs the checks of a vote that come before the user's balance is
    /// consulted, without changing anything.
    pub fn check_vote(&self, ledger_time: u64, user: &String, id: &String) -> (r: Result<
        (),
        TokenGatedVoteContractErrors,
    >)
        requires
            self.wf(),
        ensures
            r == self@.vote_precheck(ledger_time, user@, id@),
    {
        let pi = match find_key(&self.proposals, id) {
            Some(i) => i,
            None => {
                proof {
                    assert forall|i: int| 0 <= i < self.proposal_entries().len() implies #[trigger] self.proposal_entries()[i].0 != id@ by {
                        assert(self.proposals@[i].0@ != id@);
                    }
                    lemma_keyed_absent(self.proposal_entries(), id@);
                }
                return Err(TokenGatedVoteContractErrors::ProposalNotFound);
            },
        };
        proof {
            lemma_keyed_at(self.proposal_entries(), pi as int);
        }
        let p = &self.proposals[pi].1.value;
        if ledger_time < p.start_time || ledger_time > p.end_time {
            return Err(TokenGatedVoteContractErrors::VotingNotActive);
        }
        match find_key(&self.votes, user) {
            Some(j) => {
                proof {
                    lemma_keyed_at(self.vote_entries(), j as int);
                }
                if lists_id(&self.votes[j].1.value, id) {
                    return Err(TokenGatedVoteContractErrors::UserAlreadyVoted);
                }
            },
            None => {
                proof {
                    assert forall|i: int| 0 <= i < self.vote_entries().len() implies #[trigger] self.vote_entries()[i].0 != user@ by {
                        assert(self.votes@[i].0@ != user@);
                    }
                    lemma_keyed_absent(self.vote_entries(), user@);
                }
            },
        }
        Ok(())
    }

    /// Casts the vote `choice` of `user`, whose credential balance is
    /// `balance`, on proposal `id` at ledger time `ledger_time`. The caller
    /// must hold the authorization of `user`. Any positive balance gives
    /// exactly one vote.
    pub fn vote(
        &mut self,
        ledger_time: u64,
        user: String,
        id: String,
        choice: String,
        balance: i128,
    ) -> (r: Result<(), TokenGatedVoteContractErrors>)
        requires
            old(self).wf(),
        ensures
            final(self).wf(),
            r == old(self)@.vote_outcome(ledger_time, user@, id@, choice@, balance),
            r is Ok ==> final(self)@ == old(self)@.after_vote(
                ledger_time,
                user@,
                id@,
                choice_of(choice@)->Some_0,
            ),
            r is Err ==> *final(self) == *old(self),
    {
        match self.check_vote(ledger_time, &user, &id) {
            Err(e) => {
                return Err(e);
            },
            Ok(()) => {},
        }
        if balance <= 0 {
            return Err(TokenGatedVoteContractErrors::UserCannotVote);
        }
        let c = match VoteChoice::from_symbol(&choice) {
            Some(c) => c,
            None => {
                return Err(TokenGatedVoteContractErrors::InvalidChoice);
            },
        };
        let ghost old_self = *self;
        proof {
            lemma_vote_consistent(old_self@, ledger_time, user@, id@, c);
        }
        let pi = match find_key(&self.proposals, &id) {
            Some(i) => i,
            None => {
                proof {
                    assert forall|i: int| 0 <= i < self.proposal_entries().len() implies #[trigger] self.proposal_entries()[i].0 != id@ by {
                        assert(self.proposals@[i].0@ != id@);
                    }
                    lemma_keyed_absent(self.proposal_entries(), id@);
                }
                return Err(TokenGatedVoteContractErrors::ProposalNotFound);
            },
        };
        proof {
            lemma_keyed_at(self.proposal_entries(), pi as int);
            lemma_keyed_at(self.proposal_expiry_entries(), pi as int);
        }
        let end_time = self.proposals[pi].1.value.end_time;
        let ttl = Self::calculate_proposal_ttl(ledger_time, end_time);
        let old_expiry = self.proposals[pi].1.expires_at;
        let new_expiry = refresh(Some(old_expiry), ledger_time, ttl);
        match c {
            VoteChoice::For => {
                let t = bump_tally(self.proposals[pi].1.value.total_for);
                self.proposals[pi].1.value.total_for = t;
            },
            VoteChoice::Against => {
                let t = bump_tally(self.proposals[pi].1.value.total_against);
                self.proposals[pi].1.value.total_against = t;
            },
            VoteChoice::Abstain => {
                let t = bump_tally(self.proposals[pi].1.value.total_abstain);
                self.proposals[pi].1.value.total_abstain = t;
            },
        }
        self.proposals[pi].1.expires_at = new_expiry;
        proof {
            let k = old_self.proposals@[pi as int].0@;
            let pv = tallied(old_self.proposal_entries()[pi as int].1, c);
            lemma_keyed_update(old_self.proposal_entries(), pi as int, pv);
            assert(self.proposal_entries() =~= old_self.proposal_entries().update(pi as int, (k, pv)));
            lemma_keyed_update(old_self.proposal_expiry_entries(), pi as int, new_expiry);
            assert(self.proposal_expiry_entries() =~= old_self.proposal_expiry_entries().update(pi as int, (k, new_expiry)));
        }
        let ghost mid_self = *self;
        let ghost idv = id@;
        match find_key(&self.votes, &user) {
            Some(j) => {
                proof {
                    lemma_keyed_at(self.vote_entries(), j as int);
                    lemma_keyed_at(self.vote_expiry_entries(), j as int);
                }
                let ghost old_ids = self.votes@[j as int].1.value@;
                let e = refresh(Some(self.votes[j].1.expires_at), ledger_time, VOTE_TTL_EXTENSION);
                self.votes[j].1.value.push(id);
                self.votes[j].1.expires_at = e;
                proof {
                    let k = mid_self.votes@[j as int].0@;
                    let new_ids = self.votes@[j as int].1.value@;
                    assert(id_set(new_ids) =~= id_set(old_ids).insert(idv)) by {
                        assert forall|x: Seq<char>| id_set(new_ids).contains(x) <==> id_set(old_ids).insert(idv).contains(x) by {
                            if id_set(old_ids).contains(x) {
                                let i = choose|i: int| 0 <= i < old_ids.len() && #[trigger] old_ids[i]@ == x;
                                assert(new_ids[i]@ == x);
                            }
                            if x == idv {
                                assert(new_ids[old_ids.len() as int]@ == x);
                            }
                            if id_set(new_ids).contains(x) {
                                let i = choose|i: int| 0 <= i < new_ids.len() && #[trigger] new_ids[i]@ == x;
                                if i < old_ids.len() {
                                    assert(old_ids[i]@ == x);
                                }
                            }
                        }
                    }
                    lemma_keyed_update(mid_self.vote_entries(), j as int, id_set(new_ids));
                    assert(self.vote_entries() =~= mid_self.vote_entries().update(j as int, (k, id_set(new_ids))));
                    lemma_keyed_update(mid_self.vote_expiry_entries(), j as int, e);
                    assert(self.vote_expiry_entries() =~= mid_self.vote_expiry_entries().update(j as int, (k, e)));
                }
            },
            None => {
                proof {
                    assert forall|i: int| 0 <= i < self.vote_entries().len() implies #[trigger] self.vote_entries()[i].0 != user@ by {
                        assert(self.votes@[i].0@ != user@);
                    }
                    lemma_keyed_absent(self.vote_entries(), user@);
                    assert forall|i: int| 0 <= i < self.vote_expiry_entries().len() implies #[trigger] self.vote_expiry_entries()[i].0 != user@ by {
                        assert(self.votes@[i].0@ != user@);
                    }
                    lemma_keyed_absent(self.vote_expiry_entries(), user@);
                }
                let e = refresh(None, ledger_time, VOTE_TTL_EXTENSION);
                let mut ids: Vec<String> = Vec::new();
                ids.push(id);
                let ghost ids_set = id_set(ids@);
                proof {
                    assert(ids_set =~= Set::<Seq<char>>::empty().insert(idv)) by {
                        assert forall|x: Seq<char>| ids_set.contains(x) <==> x == idv by {
                            if x == idv {
                                assert(ids@[0]@ == x);
                            }
                        }
                    }
                }
                self.votes.push((user, Stored { value: ids, expires_at: e }));
                proof {
                    let k = self.votes@[mid_self.votes@.len() as int].0@;
                    lemma_keyed_push(mid_self.vote_entries(), k, ids_set);
                    assert(self.vote_entries() =~= mid_self.vote_entries().push((k, ids_set)));
                    lemma_keyed_push(mid_self.vote_expiry_entries(), k, e);
                    assert(self.vote_expiry_entries() =~= mid_self.vote_expiry_entries().push((k, e)));
                }
            },
        }
        Ok(())
    }
    /// Lists every indexed proposal that still has a record, in order of
    /// creation, with its status at ledger time `ledger_time`.
    pub fn get_governance_details(&self, ledger_time: u64) -> (r: Vec<TokenGatedVoteProposalSummary>)
        requires
            self.wf(),
        ensures
            r@.map_values(|s: TokenGatedVoteProposalSummary| s@) == self@.summaries(ledger_time),
    {
        let mut summary: Vec<TokenGatedVoteProposalSummary> = Vec::new();
        let mut i: usize = 0;
        while i < self.index.len()
            invariant
                self.wf(),
                i <= self.index@.len(),
                summary@.map_values(|s: TokenGatedVoteProposalSummary| s@) == self@.summaries_of(
                    self@.index.subrange(0, i as int),
                    ledger_time,
                ),
            decreases self.index@.len() - i,
        {
            let ghost before = summary@;
            let id = &self.index[i];
            proof {
                assert(self@.index.subrange(0, i + 1).drop_last() =~= self@.index.subrange(0, i as int));
                assert(self@.index.subrange(0, i + 1).last() == id@);
            }
            match find_key(&self.proposals, id) {
                Some(pi) => {
                    proof {
                        lemma_keyed_at(self.proposal_entries(), pi as int);
                    }
                    let p = &self.proposals[pi].1.value;
                    let status = Self::compute_proposal_status(ledger_time, p);
                    summary.push(
                        TokenGatedVoteProposalSummary {
                            id: id.clone(),
                            description: p.description.clone(),
                            status,
                        },
                    );
                    proof {
                        assert(summary@.map_values(|s: TokenGatedVoteProposalSummary| s@) =~= before.map_values(|s: TokenGatedVoteProposalSummary| s@).push(summary@.last()@));
                    }
                },
                None => {
                    proof {
                        assert forall|j: int| 0 <= j < self.proposal_entries().len() implies #[trigger] self.proposal_entries()[j].0 != id@ by {
                            assert(self.proposals@[j].0@ != id@);
                        }
                        lemma_keyed_absent(self.proposal_entries(), id@);
                    }
                },
            }
            i = i + 1;
        }
        proof {
            assert(self@.index.subrange(0, self.index@.len() as int) =~= self@.index);
        }
        summary
    }

    /// The stored record of proposal `id`.
    pub fn get_proposal_details(&self, id: String) -> (r: Result<TokenGatedVoteProposalData, TokenGatedVoteContractErrors>)
        requires
            self.wf(),
        ensures
            match r {
                Ok(d) => self@.proposals.contains_key(id@) && d@ == self@.proposals[id@],
                Err(e) => !self@.proposals.contains_key(id@) && e == TokenGatedVoteContractErrors::ProposalNotFound,
            },
    {
        match find_key(&self.proposals, &id) {
            Some(pi) => {
                proof {
                    lemma_keyed_at(self.proposal_entries(), pi as int);
                }
                Ok(self.proposals[pi].1.value.clone())
            },
            None => {
                proof {
                    assert forall|j: int| 0 <= j < self.proposal_entries().len() implies #[trigger] self.proposal_entries()[j].0 != id@ by {
                        assert(self.proposals@[j].0@ != id@);
                    }
                    lemma_keyed_absent(self.proposal_entries(), id@);
                }
                Err(TokenGatedVoteContractErrors::ProposalNotFound)
            },
        }
    }

    /// Whether `user` has voted on proposal `id`.
    pub fn has_voted(&self, user: &String, id: &String) -> (r: bool)
        requires
            self.wf(),
        ensures
            r == self@.has_voted(user@, id@),
    {
        match find_key(&self.votes, user) {
            Some(j) => {
                proof {
                    lemma_keyed_at(self.vote_entries(), j as int);
                }
                lists_id(&self.votes[j].1.value, id)
            },
            None => {
                proof {
                    assert forall|k: int| 0 <= k < self.vote_entries().len() implies #[trigger] self.vote_entries()[k].0 != user@ by {
                        assert(self.votes@[k].0@ != user@);
                    }
                    lemma_keyed_absent(self.vote_entries(), user@);
                }
                false
            },
        }
    }

    /// For each proposal, in order of creation: its id, whether `user` has
    /// voted on it, and the voting power of `user`'s current credential
    /// balance `balance` (one if positive, else zero).
    pub fn get_user_details(&self, user: String, balance: i128) -> (r: Result<
        Vec<(String, bool, i128)>,
        TokenGatedVoteContractErrors,
    >)
        requires
            self.wf(),
        ensures
            match r {
                Ok(rows) => self@.token is Some && rows@.map_values(
                    |t: (String, bool, i128)| (t.0@, t.1, t.2),
                ) == self@.user_rows(user@, balance),
                Err(e) => self@.token is None && e == TokenGatedVoteContractErrors::ContractNotInitialized,
            },
    {
        if self.token.is_none() {
            return Err(TokenGatedVoteContractErrors::ContractNotInitialized);
        }
        let voting_power: i128 = if balance > 0 {
            1
        } else {
            0
        };
        let mut results: Vec<(String, bool, i128)> = Vec::new();
        let mut i: usize = 0;
        while i < self.index.len()
            invariant
                self.wf(),
                i <= self.index@.len(),
                voting_power == power_of(balance),
                results@.map_values(|t: (String, bool, i128)| (t.0@, t.1, t.2)) == self@.user_rows(
                    user@,
                    balance,
                ).subrange(0, i as int),
            decreases self.index@.len() - i,
        {
            let id = &self.index[i];
            let voted = self.has_voted(&user, id);
            let ghost before = results@;
            results.push((id.clone(), voted, voting_power));
            proof {
                assert(self@.index[i as int] == id@);
                assert(self@.user_rows(user@, balance)[i as int] == (id@, voted, voting_power));
                assert(results@.map_values(|t: (String, bool, i128)| (t.0@, t.1, t.2)) =~= before.map_values(|t: (String, bool, i128)| (t.0@, t.1, t.2)).push((id@, voted, voting_power)));
                assert(results@.map_values(|t: (String, bool, i128)| (t.0@, t.1, t.2)) =~= self@.user_rows(
                    user@,
                    balance,
                ).subrange(0, i + 1));
            }
            i = i + 1;
        }
        proof {
            assert(self@.user_rows(user@, balance).subrange(0, self.index@.len() as int) =~= self@.user_rows(user@, balance));
        }
        Ok(results)
    }

    /// The storage horizon of the entry under `key`, if it is a persistent
    /// entry that exists. The admin record lives with the deployment itself
    /// and has none.
    pub fn expiry_of(&self, key: &TokenGatedVoteContractDataKey) -> (r: Option<u64>)
        requires
            self.wf(),
        ensures
            match key {
                TokenGatedVoteContractDataKey::Admin => r is None,
                TokenGatedVoteContractDataKey::Token => r is None,
                TokenGatedVoteContractDataKey::Proposals => r == self@.index_expiry,
                TokenGatedVoteContractDataKey::Proposal(id) => r == if self@.proposal_expiry.contains_key(id@) {
                    Some(self@.proposal_expiry[id@])
                } else {
                    None::<u64>
                },
                TokenGatedVoteContractDataKey::Votes(user) => r == if self@.vote_expiry.contains_key(user@) {
                    Some(self@.vote_expiry[user@])
                } else {
                    None::<u64>
                },
            },
    {
        match key {
            TokenGatedVoteContractDataKey::Admin => None,
            TokenGatedVoteContractDataKey::Token => None,
            TokenGatedVoteContractDataKey::Proposals => self.index_expires_at,
            TokenGatedVoteContractDataKey::Proposal(id) => match find_key(&self.proposals, id) {
                Some(pi) => {
                    proof {
                        lemma_keyed_at(self.proposal_expiry_entries(), pi as int);
                    }
                    Some(self.proposals[pi].1.expires_at)
                },
                None => {
                    proof {
                        assert forall|j: int| 0 <= j < self.proposal_expiry_entries().len() implies #[trigger] self.proposal_expiry_entries()[j].0 != id@ by {
                            assert(self.proposals@[j].0@ != id@);
                        }
                        lemma_keyed_absent(self.proposal_expiry_entries(), id@);
                    }
                    None
                },
            },
            TokenGatedVoteContractDataKey::Votes(user) => match find_key(&self.votes, user) {
                Some(j) => {
                    proof {
                        lemma_keyed_at(self.vote_expiry_entries(), j as int);
                    }
                    Some(self.votes[j].1.expires_at)
                },
                None => {
                    proof {
                        assert forall|k: int| 0 <= k < self.vote_expiry_entries().len() implies #[trigger] self.vote_expiry_entries()[k].0 != user@ by {
                            assert(self.votes@[k].0@ != user@);
                        }
                        lemma_keyed_absent(self.vote_expiry_entries(), user@);
                    }
                    None
                },
            },
        }
    }
}

} // verus!
