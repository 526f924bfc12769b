use voting::{vote_weight, Config, Error, Event, Origin, Pallet, ProposalStatus, Vote};

const PERIOD: u64 = 100;
const TEXT: [u8; 32] = [7u8; 32];

fn fresh() -> Pallet {
    Pallet::new(Config { voting_period: PERIOD })
}

/// A store with voter 1 (fee 5) and `n` started proposals created at block 1.
fn with_started(n: u32) -> Pallet {
    let mut p = fresh();
    assert!(p.register_voter(Origin::Root, 1, 5).is_ok());
    for i in 1..=n {
        assert_eq!(p.create_proposal(Origin::Signed(1), TEXT, 1), Ok(i));
        assert!(p.start_proposal(Origin::Signed(1), i, 1).is_ok());
    }
    p
}

#[test]
fn register_any_valid_fee_gives_endowment_minus_fee() {
    for fee in 1..=100u64 {
        let mut p = fresh();
        assert_eq!(p.register_voter(Origin::Root, 9, fee), Ok(()));
        assert_eq!(p.get_voter_balance(&9), 100 - fee);
        assert_eq!(p.register_voter(Origin::Root, 9, fee), Err(Error::VoterAlreadyRegistered));
        assert_eq!(p.get_voter_balance(&9), 100 - fee);
    }
}

#[test]
fn register_rejects_zero_and_oversized_fee() {
    let mut p = fresh();
    assert_eq!(p.register_voter(Origin::Root, 1, 0), Err(Error::InsufficientFee));
    assert_eq!(p.register_voter(Origin::Root, 1, 101), Err(Error::SubstractionOverflow));
    assert_eq!(p.register_voter(Origin::Root, 1, u64::MAX), Err(Error::SubstractionOverflow));
    assert!(!p.is_voter_registered(&1));
    assert_eq!(p.get_voter_balance(&1), 0);
    assert!(p.events().is_empty());
}

#[test]
fn register_with_full_fee_leaves_zero_balance() {
    let mut p = fresh();
    assert_eq!(p.register_voter(Origin::Root, 1, 100), Ok(()));
    assert_eq!(p.get_voter_balance(&1), 0);
    assert!(p.is_voter_registered(&1));
}

#[test]
fn wrong_origins_are_rejected() {
    let mut p = with_started(1);
    assert_eq!(p.register_voter(Origin::Signed(1), 2, 5), Err(Error::BadOrigin));
    assert_eq!(p.register_voter(Origin::Unsigned, 2, 5), Err(Error::BadOrigin));
    assert_eq!(p.create_proposal(Origin::Root, TEXT, 1), Err(Error::BadOrigin));
    assert_eq!(p.start_proposal(Origin::Unsigned, 1, 1), Err(Error::BadOrigin));
    assert_eq!(p.reserve_tokens(Origin::Root, 1), Err(Error::BadOrigin));
    assert_eq!(p.unreserve_tokens(Origin::Root, 1), Err(Error::BadOrigin));
    assert_eq!(p.vote_proposal(Origin::Root, 1, Vote::Aye, 1), Err(Error::BadOrigin));
    assert_eq!(p.vote_multiple_proposals(Origin::Unsigned, vec![], 1), Err(Error::BadOrigin));
}

#[test]
fn reserve_then_unreserve_scenario() {
    let mut p = fresh();
    assert!(p.register_voter(Origin::Root, 1, 5).is_ok());
    assert_eq!(p.get_voter_balance(&1), 95);
    assert!(p.reserve_tokens(Origin::Signed(1), 50).is_ok());
    assert_eq!(p.get_voter_balance(&1), 45);
    assert_eq!(p.get_reserved_balance(&1), 50);
    assert!(p.unreserve_tokens(Origin::Signed(1), 50).is_ok());
    assert_eq!(p.get_reserved_balance(&1), 0);
    assert_eq!(p.get_voter_balance(&1), 70);
}

#[test]
fn unreserve_penalty_rounds_down() {
    let mut p = fresh();
    assert!(p.register_voter(Origin::Root, 1, 5).is_ok());
    assert!(p.reserve_tokens(Origin::Signed(1), 11).is_ok());
    assert!(p.unreserve_tokens(Origin::Signed(1), 1).is_ok());
    assert_eq!(p.get_voter_balance(&1), 85);
    assert_eq!(p.get_reserved_balance(&1), 10);
    assert!(p.unreserve_tokens(Origin::Signed(1), 7).is_ok());
    assert_eq!(p.get_voter_balance(&1), 85 + 7 - 3);
    assert_eq!(p.get_reserved_balance(&1), 3);
    assert_eq!(
        p.events().last(),
        Some(&Event::TokensUnreserved { who: 1, amount: 7, updated_balance: 89 })
    );
}

#[test]
fn proposal_lifecycle_scenario() {
    let mut p = fresh();
    assert!(p.register_voter(Origin::Root, 1, 5).is_ok());
    assert_eq!(p.create_proposal(Origin::Signed(1), TEXT, 3), Ok(1));
    assert_eq!(p.get_proposal_status(1), ProposalStatus::NotStarted);
    assert_eq!(p.get_proposal_end_block(1), 3 + PERIOD);
    let prop = p.get_proposal(1).unwrap();
    assert_eq!(prop.proposer, 1);
    assert_eq!(prop.text, TEXT);
    assert_eq!(prop.proposal_index, 1);
    assert!(p.start_proposal(Origin::Signed(1), 1, 10).is_ok());
    assert_eq!(p.get_proposal_status(1), ProposalStatus::InProgress);
    assert_eq!(p.get_voter_balance(&1), 85);
    assert_eq!(p.create_proposal(Origin::Signed(1), TEXT, 3), Ok(2));
    assert!(p.get_proposal(3).is_none());
    assert!(p.get_proposal(0).is_none());
}

#[test]
fn any_registered_voter_may_start_a_proposal() {
    let mut p = fresh();
    assert!(p.register_voter(Origin::Root, 1, 5).is_ok());
    assert!(p.register_voter(Origin::Root, 2, 5).is_ok());
    assert_eq!(p.create_proposal(Origin::Signed(1), TEXT, 1), Ok(1));
    assert!(p.start_proposal(Origin::Signed(2), 1, 95).is_ok());
    assert_eq!(p.get_voter_balance(&2), 0);
    assert_eq!(p.get_voter_balance(&1), 95);
}

#[test]
fn start_checks_status_before_fee_and_balance() {
    let mut p = with_started(1);
    assert_eq!(p.start_proposal(Origin::Signed(1), 1, 0), Err(Error::ProposalAlreadyStarted));
    assert_eq!(p.create_proposal(Origin::Signed(1), TEXT, 1), Ok(2));
    assert_eq!(p.start_proposal(Origin::Signed(1), 2, 0), Err(Error::InsufficientFee));
    assert_eq!(p.start_proposal(Origin::Signed(1), 2, 1000), Err(Error::NotEnoughBalance));
}

#[test]
fn end_block_overflow_is_rejected() {
    let mut p = fresh();
    assert!(p.register_voter(Origin::Root, 1, 5).is_ok());
    assert_eq!(
        p.create_proposal(Origin::Signed(1), TEXT, u64::MAX - PERIOD + 1),
        Err(Error::AdditionOverflow)
    );
    assert_eq!(p.create_proposal(Origin::Signed(1), TEXT, u64::MAX - PERIOD), Ok(1));
    assert_eq!(p.get_proposal_end_block(1), u64::MAX);
}

#[test]
fn aye_weight_is_floor_sqrt_of_reserved() {
    let mut p = with_started(1);
    assert!(p.reserve_tokens(Origin::Signed(1), 50).is_ok());
    assert!(p.vote_proposal(Origin::Signed(1), 1, Vote::Aye, 2).is_ok());
    assert_eq!(p.get_aye_votes_balance(1, &1), 7);
    assert!(p.voter_has_voted(1, &1));
    assert_eq!(
        p.vote_proposal(Origin::Signed(1), 1, Vote::Aye, 2),
        Err(Error::VoterAlreadyVoted)
    );
    assert_eq!(p.get_aye_votes_balance(1, &1), 7);
}

#[test]
fn vote_weight_values() {
    assert_eq!(vote_weight(0), 0);
    assert_eq!(vote_weight(1), 1);
    assert_eq!(vote_weight(3), 1);
    assert_eq!(vote_weight(4), 2);
    assert_eq!(vote_weight(50), 7);
    assert_eq!(vote_weight(80), 8);
    assert_eq!(vote_weight(81), 9);
    assert_eq!(vote_weight(u64::MAX), 4_294_967_295);
}

#[test]
fn nay_and_abstain_are_dropped() {
    let mut p = with_started(1);
    assert!(p.reserve_tokens(Origin::Signed(1), 50).is_ok());
    let before = p.events().len();
    assert_eq!(p.vote_proposal(Origin::Signed(1), 1, Vote::Nay, 2), Ok(()));
    assert_eq!(p.vote_proposal(Origin::Signed(1), 1, Vote::Abstain, 2), Ok(()));
    assert!(!p.voter_has_voted(1, &1));
    assert_eq!(p.events().len(), before);
    assert_eq!(p.vote_proposal(Origin::Signed(1), 1, Vote::Aye, 2), Ok(()));
    assert_eq!(p.get_aye_votes_balance(1, &1), 7);
}

#[test]
fn voting_on_an_ended_proposal_completes_it_without_recording() {
    let mut p = with_started(2);
    assert!(p.reserve_tokens(Origin::Signed(1), 16).is_ok());
    assert!(p.vote_proposal(Origin::Signed(1), 2, Vote::Aye, 50).is_ok());
    // Proposal 1 ended at block 101; the deadline check comes before the vote.
    assert_eq!(p.vote_proposal(Origin::Signed(1), 1, Vote::Aye, 101), Ok(()));
    assert_eq!(p.get_proposal_status(1), ProposalStatus::Completed);
    assert_eq!(p.get_proposal_status(2), ProposalStatus::InProgress);
    assert!(!p.voter_has_voted(1, &1));
    assert_eq!(p.events().last(), Some(&Event::VotingEnded { winner: 2 }));
    assert_eq!(
        p.vote_proposal(Origin::Signed(1), 1, Vote::Aye, 101),
        Err(Error::ProposalNotActive)
    );
}

#[test]
fn winner_tie_keeps_the_first_then_a_greater_total_takes_over() {
    let mut p = fresh();
    for v in 1..=4u64 {
        assert!(p.register_voter(Origin::Root, v, 1).is_ok());
    }
    assert_eq!(p.create_proposal(Origin::Signed(1), TEXT, 1), Ok(1));
    assert_eq!(p.create_proposal(Origin::Signed(1), TEXT, 1), Ok(2));
    assert!(p.start_proposal(Origin::Signed(1), 1, 1).is_ok());
    assert!(p.start_proposal(Origin::Signed(1), 2, 1).is_ok());
    // A: 9 + 4 = 13
    assert!(p.reserve_tokens(Origin::Signed(1), 81).is_ok());
    assert!(p.vote_proposal(Origin::Signed(1), 1, Vote::Aye, 2).is_ok());
    assert!(p.reserve_tokens(Origin::Signed(2), 16).is_ok());
    assert!(p.vote_proposal(Origin::Signed(2), 1, Vote::Aye, 2).is_ok());
    // B: 9 + 4 = 13
    assert!(p.reserve_tokens(Origin::Signed(3), 81).is_ok());
    assert!(p.vote_proposal(Origin::Signed(3), 2, Vote::Aye, 2).is_ok());
    assert!(p.vote_proposal(Origin::Signed(2), 2, Vote::Aye, 2).is_ok());
    assert_eq!(p.get_winner(), 1);
    // B: 13 + 1 = 14
    assert!(p.reserve_tokens(Origin::Signed(4), 1).is_ok());
    assert!(p.vote_proposal(Origin::Signed(4), 2, Vote::Aye, 2).is_ok());
    assert_eq!(p.get_winner(), 2);
}

#[test]
fn winner_is_zero_without_weight() {
    let p = fresh();
    assert_eq!(p.get_winner(), 0);
    let p = with_started(3);
    assert_eq!(p.get_winner(), 0);
}

#[test]
fn update_status_of_unknown_proposal_changes_nothing() {
    let mut p = with_started(1);
    p.update_proposal_status_to_completed(0);
    p.update_proposal_status_to_completed(5);
    assert_eq!(p.get_proposal_status(1), ProposalStatus::InProgress);
    p.update_proposal_status_to_completed(1);
    assert_eq!(p.get_proposal_status(1), ProposalStatus::Completed);
}

#[test]
fn failed_calls_leave_balances_and_votes() {
    let mut p = with_started(2);
    assert!(p.reserve_tokens(Origin::Signed(1), 30).is_ok());
    assert!(p.vote_proposal(Origin::Signed(1), 1, Vote::Aye, 2).is_ok());
    let events = p.events().len();
    let free = p.get_voter_balance(&1);
    let reserved = p.get_reserved_balance(&1);
    assert!(p.reserve_tokens(Origin::Signed(1), free + 1).is_err());
    assert!(p.unreserve_tokens(Origin::Signed(1), reserved + 1).is_err());
    assert!(p.start_proposal(Origin::Signed(1), 2, 1).is_err());
    assert!(p.vote_proposal(Origin::Signed(1), 1, Vote::Aye, 2).is_err());
    assert!(p
        .vote_multiple_proposals(Origin::Signed(1), vec![(2, 5, Vote::Aye), (1, 5, Vote::Aye)], 2)
        .is_err());
    assert_eq!(p.events().len(), events);
    assert_eq!(p.get_voter_balance(&1), free);
    assert_eq!(p.get_reserved_balance(&1), reserved);
    assert!(!p.voter_has_voted(2, &1));
    assert_eq!(p.get_aye_votes_balance(1, &1), 5);
}

#[test]
fn batch_with_one_inactive_proposal_records_nothing() {
    let mut p = with_started(2);
    assert_eq!(p.create_proposal(Origin::Signed(1), TEXT, 1), Ok(3));
    assert!(p.reserve_tokens(Origin::Signed(1), 50).is_ok());
    let batch = vec![(1, 10, Vote::Aye), (2, 10, Vote::Aye), (3, 10, Vote::Aye)];
    assert_eq!(
        p.vote_multiple_proposals(Origin::Signed(1), batch, 2),
        Err(Error::AtLeastOneProposalNotRegisteredOrNotActive)
    );
    for i in 1..=3 {
        assert!(!p.voter_has_voted(i, &1));
    }
    let batch = vec![(1, 10, Vote::Aye), (9, 10, Vote::Aye)];
    assert_eq!(
        p.vote_multiple_proposals(Origin::Signed(1), batch, 2),
        Err(Error::AtLeastOneProposalNotRegisteredOrNotActive)
    );
    assert!(!p.voter_has_voted(1, &1));
}

#[test]
fn batch_accumulates_repeated_proposals_and_repeats_its_event() {
    let mut p = with_started(2);
    assert!(p.reserve_tokens(Origin::Signed(1), 60).is_ok());
    let before = p.events().len();
    let batch = vec![(1, 16, Vote::Aye), (2, 20, Vote::Nay), (1, 9, Vote::Aye)];
    assert_eq!(p.vote_multiple_proposals(Origin::Signed(1), batch, 2), Ok(()));
    assert_eq!(p.get_aye_votes_balance(1, &1), 7);
    assert!(!p.voter_has_voted(2, &1));
    let events = p.events();
    assert_eq!(events.len(), before + 2);
    let expected = Event::ProposalsVoted { proposals: vec![1, 2, 1] };
    assert_eq!(events[before], expected);
    assert_eq!(events[before + 1], expected);
}

#[test]
fn batch_amounts_count_nay_items_against_the_reservation() {
    let mut p = with_started(2);
    assert!(p.reserve_tokens(Origin::Signed(1), 20).is_ok());
    let batch = vec![(1, 10, Vote::Aye), (2, 11, Vote::Nay)];
    assert_eq!(
        p.vote_multiple_proposals(Origin::Signed(1), batch, 2),
        Err(Error::NotEnoughReservedTokens)
    );
    let batch = vec![(1, u64::MAX, Vote::Aye), (2, u64::MAX, Vote::Aye)];
    assert_eq!(
        p.vote_multiple_proposals(Origin::Signed(1), batch, 2),
        Err(Error::NotEnoughReservedTokens)
    );
}

#[test]
fn empty_batch_succeeds_and_changes_nothing() {
    let mut p = with_started(1);
    let before = p.events().len();
    assert_eq!(p.vote_multiple_proposals(Origin::Signed(1), vec![], 2), Ok(()));
    assert_eq!(p.events().len(), before);
}

#[test]
fn ended_batch_completes_only_the_winner() {
    let mut p = with_started(2);
    assert!(p.reserve_tokens(Origin::Signed(1), 20).is_ok());
    assert!(p.vote_proposal(Origin::Signed(1), 2, Vote::Aye, 2).is_ok());
    assert_eq!(
        p.vote_multiple_proposals(Origin::Signed(1), vec![(1, 4, Vote::Aye)], 101),
        Ok(())
    );
    assert_eq!(p.get_proposal_status(1), ProposalStatus::InProgress);
    assert_eq!(p.get_proposal_status(2), ProposalStatus::Completed);
    assert!(!p.voter_has_voted(1, &1));
    assert_eq!(p.events().last(), Some(&Event::VotingEnded { winner: 2 }));
}

#[test]
fn ended_batch_without_weight_completes_nothing() {
    let mut p = with_started(2);
    assert!(p.reserve_tokens(Origin::Signed(1), 20).is_ok());
    assert_eq!(
        p.vote_multiple_proposals(Origin::Signed(1), vec![(1, 4, Vote::Aye)], 500),
        Ok(())
    );
    assert_eq!(p.get_proposal_status(1), ProposalStatus::InProgress);
    assert_eq!(p.get_proposal_status(2), ProposalStatus::InProgress);
    assert_eq!(p.events().last(), Some(&Event::VotingEnded { winner: 0 }));
}

#[test]
fn checked_balance_helpers() {
    assert_eq!(Pallet::checked_sub_between_balances(100, 5), Ok(95));
    assert_eq!(Pallet::checked_sub_between_balances(5, 100), Err(Error::SubstractionOverflow));
    assert_eq!(Pallet::checked_add_between_balances(1, 2), Ok(3));
    assert_eq!(Pallet::checked_add_between_balances(u64::MAX, 1), Err(Error::AdditionOverflow));
    assert_eq!(Pallet::checked_div_between_balances(51, 2), Ok(25));
    assert_eq!(Pallet::checked_div_between_balances(51, 0), Err(Error::SlashFailed));
    assert_eq!(Pallet::balance_to_u128(u64::MAX), u64::MAX as u128);
}
