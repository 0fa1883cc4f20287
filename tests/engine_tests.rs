use token_gated_vote_contract::proposal::bump_tally;
use token_gated_vote_contract::{
    TokenGatedVoteContract, TokenGatedVoteContractDataKey, TokenGatedVoteContractErrors,
    TokenGatedVoteProposalData, TokenGatedVoteProposalStatus, VoteChoice, MAX_PROPOSAL_DURATION,
    MIN_PROPOSAL_DURATION, PROPOSALS_TTL_EXTENSION, VOTE_TTL_EXTENSION,
};

const T: u64 = 1_000_000;

fn s(text: &str) -> String {
    String::from(text)
}

fn engine() -> TokenGatedVoteContract {
    let mut contract = TokenGatedVoteContract::new();
    contract.init(s("admin"), s("token")).unwrap();
    contract
}

fn engine_with_proposal(start: u64, end: u64) -> TokenGatedVoteContract {
    let mut contract = engine();
    contract.create_proposal(T, s("PROP001"), s("desc"), start, end).unwrap();
    contract
}

fn tallies(contract: &TokenGatedVoteContract) -> (i128, i128, i128) {
    let d = contract.get_proposal_details(s("PROP001")).unwrap();
    (d.total_for, d.total_against, d.total_abstain)
}

#[test]
fn three_voters_one_of_each_choice() {
    let mut contract = engine();
    contract.create_proposal(T, s("PROP001"), s("desc"), T + 100, T + 500_100).unwrap();
    assert!(contract.vote(T + 150, s("a"), s("PROP001"), s("FOR"), 7).is_ok());
    assert!(contract.vote(T + 150, s("b"), s("PROP001"), s("AGAINST"), 7).is_ok());
    assert!(contract.vote(T + 150, s("c"), s("PROP001"), s("ABSTAIN"), 7).is_ok());
    assert_eq!(tallies(&contract), (1, 1, 1));
}

#[test]
fn created_proposal_is_pending_until_start() {
    let contract = engine_with_proposal(T + 100, T + 500_100);
    let before = contract.get_governance_details(T + 99);
    assert_eq!(before.len(), 1);
    assert_eq!(before[0].status, TokenGatedVoteProposalStatus::Pending);
    assert_eq!(before[0].description, s("desc"));
    let at_start = contract.get_governance_details(T + 100);
    assert_eq!(at_start[0].status, TokenGatedVoteProposalStatus::Active);
    let at_end = contract.get_governance_details(T + 500_100);
    assert_eq!(at_end[0].status, TokenGatedVoteProposalStatus::Active);
    let after = contract.get_governance_details(T + 500_101);
    assert_eq!(after[0].status, TokenGatedVoteProposalStatus::Ended);
}

#[test]
fn duration_bounds_are_inclusive() {
    let mut contract = engine();
    assert!(contract
        .create_proposal(T, s("MIN"), s("d"), T, T + MIN_PROPOSAL_DURATION)
        .is_ok());
    assert!(contract
        .create_proposal(T, s("MAX"), s("d"), T, T + MAX_PROPOSAL_DURATION)
        .is_ok());
    assert_eq!(
        contract.create_proposal(T, s("SHORT"), s("d"), T, T + MIN_PROPOSAL_DURATION - 1),
        Err(TokenGatedVoteContractErrors::DurationTooShort)
    );
    assert_eq!(
        contract.create_proposal(T, s("LONG"), s("d"), T, T + MAX_PROPOSAL_DURATION + 1),
        Err(TokenGatedVoteContractErrors::DurationTooLong)
    );
    assert_eq!(contract.get_governance_details(T).len(), 2);
}

#[test]
fn window_checks_run_in_order() {
    assert_eq!(
        TokenGatedVoteContract::validate_proposal_times(T, T - 10, T - 10),
        Err(TokenGatedVoteContractErrors::StartTimeAfterEnd)
    );
    assert_eq!(
        TokenGatedVoteContract::validate_proposal_times(T, T - 10, T + 100),
        Err(TokenGatedVoteContractErrors::StartTimeInPast)
    );
    assert_eq!(
        TokenGatedVoteContract::validate_proposal_times(T, T - 10, T + 5_000_000),
        Err(TokenGatedVoteContractErrors::StartTimeInPast)
    );
    assert_eq!(TokenGatedVoteContract::validate_proposal_times(T, T, T + 500_000), Ok(()));
}

#[test]
fn duplicate_id_keeps_one_index_entry() {
    let mut contract = engine_with_proposal(T + 100, T + 500_100);
    assert_eq!(
        contract.create_proposal(T, s("PROP001"), s("other"), T + 200, T + 600_000),
        Err(TokenGatedVoteContractErrors::ProposalAlreadyExists)
    );
    let listing = contract.get_governance_details(T);
    assert_eq!(listing.len(), 1);
    assert_eq!(listing[0].description, s("desc"));
    assert_eq!(tallies(&contract), (0, 0, 0));
}

#[test]
fn second_vote_leaves_first_tally() {
    let mut contract = engine_with_proposal(T + 100, T + 500_100);
    assert!(contract.vote(T + 150, s("u"), s("PROP001"), s("AGAINST"), 1).is_ok());
    assert_eq!(
        contract.vote(T + 200, s("u"), s("PROP001"), s("FOR"), 1),
        Err(TokenGatedVoteContractErrors::UserAlreadyVoted)
    );
    assert_eq!(tallies(&contract), (0, 1, 0));
    assert!(contract.has_voted(&s("u"), &s("PROP001")));
    assert!(!contract.has_voted(&s("v"), &s("PROP001")));
}

#[test]
fn zero_and_negative_balances_cannot_vote() {
    let mut contract = engine_with_proposal(T + 100, T + 500_100);
    assert_eq!(
        contract.vote(T + 150, s("u"), s("PROP001"), s("FOR"), 0),
        Err(TokenGatedVoteContractErrors::UserCannotVote)
    );
    assert_eq!(
        contract.vote(T + 150, s("u"), s("PROP001"), s("FOR"), -5),
        Err(TokenGatedVoteContractErrors::UserCannotVote)
    );
    assert_eq!(tallies(&contract), (0, 0, 0));
    assert!(!contract.has_voted(&s("u"), &s("PROP001")));
}

#[test]
fn unknown_choice_leaves_tallies() {
    let mut contract = engine_with_proposal(T + 100, T + 500_100);
    for choice in ["for", "Against", "", "ABSTAINED", "INVALID"] {
        assert_eq!(
            contract.vote(T + 150, s("u"), s("PROP001"), s(choice), 10),
            Err(TokenGatedVoteContractErrors::InvalidChoice)
        );
    }
    assert_eq!(tallies(&contract), (0, 0, 0));
    assert!(!contract.has_voted(&s("u"), &s("PROP001")));
}

#[test]
fn eligibility_is_checked_before_choice() {
    let mut contract = engine_with_proposal(T + 100, T + 500_100);
    assert_eq!(
        contract.vote(T + 150, s("u"), s("PROP001"), s("NOPE"), 0),
        Err(TokenGatedVoteContractErrors::UserCannotVote)
    );
    assert!(contract.vote(T + 150, s("u"), s("PROP001"), s("FOR"), 1).is_ok());
    assert_eq!(
        contract.vote(T + 150, s("u"), s("PROP001"), s("NOPE"), 0),
        Err(TokenGatedVoteContractErrors::UserAlreadyVoted)
    );
}

#[test]
fn check_vote_reports_first_failure() {
    let mut contract = engine_with_proposal(T + 100, T + 500_100);
    assert_eq!(
        contract.check_vote(T + 150, &s("u"), &s("NONE")),
        Err(TokenGatedVoteContractErrors::ProposalNotFound)
    );
    assert_eq!(
        contract.check_vote(T + 99, &s("u"), &s("PROP001")),
        Err(TokenGatedVoteContractErrors::VotingNotActive)
    );
    assert_eq!(contract.check_vote(T + 150, &s("u"), &s("PROP001")), Ok(()));
    contract.vote(T + 150, s("u"), s("PROP001"), s("ABSTAIN"), 3).unwrap();
    assert_eq!(
        contract.check_vote(T + 150, &s("u"), &s("PROP001")),
        Err(TokenGatedVoteContractErrors::UserAlreadyVoted)
    );
}

#[test]
fn transfer_moves_admin_authority() {
    let mut contract = engine();
    assert_eq!(contract.admin(), Ok(s("admin")));
    assert!(contract.transfer_admin(s("next")).is_ok());
    assert_eq!(contract.admin(), Ok(s("next")));
    assert_ne!(contract.admin(), Ok(s("admin")));
    assert!(contract.authorizes(&s("next")));
    assert!(!contract.authorizes(&s("admin")));
}

#[test]
fn uninitialized_deployment_refuses_work() {
    let mut contract = TokenGatedVoteContract::new();
    assert_eq!(contract.admin(), Err(TokenGatedVoteContractErrors::ContractNotInitialized));
    assert!(!contract.authorizes(&s("admin")));
    assert_eq!(contract.token(), Err(TokenGatedVoteContractErrors::ContractNotInitialized));
    assert_eq!(
        contract.create_proposal(T, s("P"), s("d"), T + 100, T + 500_100),
        Err(TokenGatedVoteContractErrors::ContractNotInitialized)
    );
    assert_eq!(
        contract.transfer_admin(s("x")),
        Err(TokenGatedVoteContractErrors::ContractNotInitialized)
    );
    assert_eq!(
        contract.get_user_details(s("u"), 5).unwrap_err(),
        TokenGatedVoteContractErrors::ContractNotInitialized
    );
    assert_eq!(contract.get_governance_details(T).len(), 0);
    assert_eq!(
        contract.get_proposal_details(s("P")).unwrap_err(),
        TokenGatedVoteContractErrors::ProposalNotFound
    );
}

#[test]
fn user_details_rows_follow_index() {
    let mut contract = engine();
    contract.create_proposal(T, s("A"), s("a"), T + 100, T + 500_100).unwrap();
    contract.create_proposal(T, s("B"), s("b"), T + 100, T + 500_100).unwrap();
    contract.vote(T + 150, s("u"), s("B"), s("FOR"), 9).unwrap();
    let rows = contract.get_user_details(s("u"), 9).unwrap();
    assert_eq!(rows, vec![(s("A"), false, 1), (s("B"), true, 1)]);
    let rows_now_empty = contract.get_user_details(s("u"), 0).unwrap();
    assert_eq!(rows_now_empty, vec![(s("A"), false, 0), (s("B"), true, 0)]);
}

#[test]
fn proposal_ttl_formula() {
    // Short remaining time: the base extension wins.
    assert_eq!(TokenGatedVoteContract::calculate_proposal_ttl(T, T + 500_000), 2_100_000);
    // Long remaining time: remaining plus the buffer.
    assert_eq!(TokenGatedVoteContract::calculate_proposal_ttl(T, T + 1_600_000), 1_600_000 + 604_800);
    // Window already over: base extension.
    assert_eq!(TokenGatedVoteContract::calculate_proposal_ttl(T, T - 1), PROPOSALS_TTL_EXTENSION);
    // Remaining time near the top of the range saturates.
    assert_eq!(TokenGatedVoteContract::calculate_proposal_ttl(0, u64::MAX), u64::MAX);
}

#[test]
fn storage_horizons_are_set_on_writes() {
    let mut contract = engine();
    // A window that ends far ahead: remaining time plus the buffer.
    let far_end = T + 1_000_000 + MAX_PROPOSAL_DURATION;
    contract.create_proposal(T, s("FAR"), s("d"), T + 1_000_000, far_end).unwrap();
    assert_eq!(
        contract.expiry_of(&TokenGatedVoteContractDataKey::Proposal(s("FAR"))),
        Some(far_end + 604_800)
    );
    // A window that ends soon: the base extension.
    contract.create_proposal(T, s("P"), s("d"), T + 100, T + 500_100).unwrap();
    assert_eq!(
        contract.expiry_of(&TokenGatedVoteContractDataKey::Proposal(s("P"))),
        Some(T + PROPOSALS_TTL_EXTENSION)
    );
    assert_eq!(
        contract.expiry_of(&TokenGatedVoteContractDataKey::Proposals),
        Some(T + PROPOSALS_TTL_EXTENSION)
    );
    assert_eq!(contract.expiry_of(&TokenGatedVoteContractDataKey::Admin), None);
    assert_eq!(contract.expiry_of(&TokenGatedVoteContractDataKey::Token), None);
    assert_eq!(contract.expiry_of(&TokenGatedVoteContractDataKey::Votes(s("u"))), None);

    let now = T + 200;
    contract.vote(now, s("u"), s("P"), s("FOR"), 1).unwrap();
    assert_eq!(
        contract.expiry_of(&TokenGatedVoteContractDataKey::Votes(s("u"))),
        Some(now + VOTE_TTL_EXTENSION)
    );
    assert_eq!(
        contract.expiry_of(&TokenGatedVoteContractDataKey::Proposal(s("P"))),
        Some(now + PROPOSALS_TTL_EXTENSION)
    );
    // A later append to the index extends its horizon.
    contract.create_proposal(now, s("Q"), s("d"), T + 300, T + 500_300).unwrap();
    assert_eq!(
        contract.expiry_of(&TokenGatedVoteContractDataKey::Proposals),
        Some(now + PROPOSALS_TTL_EXTENSION)
    );
    assert_eq!(contract.expiry_of(&TokenGatedVoteContractDataKey::Proposal(s("Z"))), None);
}

#[test]
fn status_boundaries() {
    let p = TokenGatedVoteProposalData {
        description: s("d"),
        start_time: 10,
        end_time: 20,
        total_for: 0,
        total_against: 0,
        total_abstain: 0,
    };
    assert_eq!(TokenGatedVoteContract::compute_proposal_status(9, &p), TokenGatedVoteProposalStatus::Pending);
    assert_eq!(TokenGatedVoteContract::compute_proposal_status(10, &p), TokenGatedVoteProposalStatus::Active);
    assert_eq!(TokenGatedVoteContract::compute_proposal_status(20, &p), TokenGatedVoteProposalStatus::Active);
    assert_eq!(TokenGatedVoteContract::compute_proposal_status(21, &p), TokenGatedVoteProposalStatus::Ended);
}

#[test]
fn choice_symbols_decode() {
    assert_eq!(VoteChoice::from_symbol(&s("FOR")), Some(VoteChoice::For));
    assert_eq!(VoteChoice::from_symbol(&s("AGAINST")), Some(VoteChoice::Against));
    assert_eq!(VoteChoice::from_symbol(&s("ABSTAIN")), Some(VoteChoice::Abstain));
    assert_eq!(VoteChoice::from_symbol(&s("FORX")), None);
}

#[test]
fn tally_saturates() {
    assert_eq!(bump_tally(0), 1);
    assert_eq!(bump_tally(i128::MAX - 1), i128::MAX);
    assert_eq!(bump_tally(i128::MAX), i128::MAX);
}

#[test]
fn error_codes_are_distinct() {
    let all = [
        TokenGatedVoteContractErrors::ContractNotInitialized,
        TokenGatedVoteContractErrors::ContractAlreadyInitialized,
        TokenGatedVoteContractErrors::ProposalAlreadyExists,
        TokenGatedVoteContractErrors::ProposalNotFound,
        TokenGatedVoteContractErrors::UserAlreadyVoted,
        TokenGatedVoteContractErrors::UserCannotVote,
        TokenGatedVoteContractErrors::VotingNotActive,
        TokenGatedVoteContractErrors::InvalidChoice,
        TokenGatedVoteContractErrors::StartTimeAfterEnd,
        TokenGatedVoteContractErrors::StartTimeInPast,
        TokenGatedVoteContractErrors::DurationTooLong,
        TokenGatedVoteContractErrors::DurationTooShort,
    ];
    for (i, e) in all.iter().enumerate() {
        assert_eq!(e.code(), i as u32 + 1);
    }
}
