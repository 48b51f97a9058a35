use quorum_credit::auction::{
    auction_fits, cancel_auction, create_auction, get_active_auctions, get_auction,
    get_auction_for_loan, min_bid_computable, payload_to_verify, place_bid, settle_auction, verify_auction_bid_attestation,
    AuctionBid, AuctionBook, AuctionEvent, AuctionStatus, DEFAULT_AUCTION_DURATION_SECS,
};
use quorum_credit::errors::ContractError;
use quorum_credit::types::AccountId;

const CONTRACT: AccountId = AccountId(1000);

fn bid(bidder: u64, amount: i128, nonce: u64, timestamp: u64) -> AuctionBid {
    AuctionBid { bidder: AccountId(bidder), amount, chain_id: 1, nonce, timestamp, signature: [0u8; 64] }
}

#[test]
fn test_create_auction() {
    let mut book = AuctionBook::new(CONTRACT);
    let borrower = AccountId(1);
    let collateral_token = AccountId(2);

    let auction_id = create_auction(&mut book, 10_000, 1, borrower, 1_000_000, collateral_token, 1).unwrap();

    assert_eq!(auction_id, 1);

    let auction = get_auction(&book, auction_id);
    assert!(auction.is_some());
    let auction = auction.unwrap();
    assert_eq!(auction.loan_id, 1);
    assert_eq!(auction.borrower, borrower);
    assert_eq!(auction.collateral_value, 1_000_000);
    assert_eq!(auction.status, AuctionStatus::Active);
}

#[test]
fn test_duplicate_auction_for_loan() {
    let mut book = AuctionBook::new(CONTRACT);
    let borrower = AccountId(1);
    let collateral_token = AccountId(2);

    create_auction(&mut book, 0, 1, borrower, 1_000_000, collateral_token, 1).unwrap();

    let result = create_auction(&mut book, 0, 1, borrower, 1_000_000, collateral_token, 1);

    assert_eq!(result, Err(ContractError::InvalidStateTransition));
}

#[test]
fn test_cancel_auction() {
    let mut book = AuctionBook::new(CONTRACT);
    let borrower = AccountId(1);
    let collateral_token = AccountId(2);

    let auction_id = create_auction(&mut book, 0, 1, borrower, 1_000_000, collateral_token, 1).unwrap();

    cancel_auction(&mut book, auction_id).unwrap();

    let auction = get_auction(&book, auction_id);
    assert!(auction.is_some());
    assert_eq!(auction.unwrap().status, AuctionStatus::Cancelled);
}

#[test]
fn test_get_active_auctions() {
    let mut book = AuctionBook::new(CONTRACT);
    let borrower = AccountId(1);
    let collateral_token = AccountId(2);

    create_auction(&mut book, 0, 1, borrower, 1_000_000, collateral_token, 1).unwrap();
    create_auction(&mut book, 0, 2, borrower, 1_000_000, collateral_token, 1).unwrap();

    let active = get_active_auctions(&book);
    assert_eq!(active.len(), 2);
}

#[test]
fn test_get_auction_for_loan() {
    let mut book = AuctionBook::new(CONTRACT);
    let borrower = AccountId(1);
    let collateral_token = AccountId(2);

    create_auction(&mut book, 0, 1, borrower, 1_000_000, collateral_token, 1).unwrap();

    let auction_id = get_auction_for_loan(&book, 1);
    assert_eq!(auction_id, Some(1));
}

#[test]
fn auction_ids_are_sequential_and_end_after_seven_days() {
    let mut book = AuctionBook::new(CONTRACT);
    assert_eq!(create_auction(&mut book, 500, 7, AccountId(1), 10, AccountId(2), 3), Ok(1));
    assert_eq!(create_auction(&mut book, 500, 8, AccountId(1), 10, AccountId(2), 3), Ok(2));
    let a = get_auction(&book, 2).unwrap();
    assert_eq!(a.auction_id, 2);
    assert_eq!(a.created_at, 500);
    assert_eq!(a.ends_at, 500 + DEFAULT_AUCTION_DURATION_SECS);
    assert_eq!(a.ends_at, 605_300);
    assert_eq!(a.origin_chain, 3);
    assert_eq!(get_active_auctions(&book), vec![1, 2]);
    assert_eq!(
        book.events[0],
        AuctionEvent::Created { auction_id: 1, loan_id: 7, borrower: AccountId(1), collateral_value: 10 }
    );
    assert_eq!(get_auction(&book, 3).map(|a| a.auction_id), None);
    assert_eq!(get_auction_for_loan(&book, 9), None);
}

#[test]
fn first_bid_must_reach_a_tenth_of_the_collateral() {
    let mut book = AuctionBook::new(CONTRACT);
    create_auction(&mut book, 1_000, 1, AccountId(1), 1_000_000, AccountId(2), 1).unwrap();
    assert_eq!(place_bid(&mut book, 1_100, 1, bid(5, 99_999, 1, 1_100)), Err(ContractError::InsufficientFunds));
    assert_eq!(place_bid(&mut book, 1_100, 1, bid(5, 100_000, 1, 1_100)), Ok(()));
    let a = get_auction(&book, 1).unwrap();
    assert_eq!(a.current_highest_bid.unwrap().amount, 100_000);
    assert_eq!(a.current_highest_bid.unwrap().bidder, AccountId(5));
    assert_eq!(book.used_nonces, vec![(1, 1)]);
    assert_eq!(
        *book.events.last().unwrap(),
        AuctionEvent::Bid { auction_id: 1, bidder: AccountId(5), amount: 100_000, chain_id: 1 }
    );
}

#[test]
fn next_bid_must_exceed_the_highest_by_five_percent() {
    let mut book = AuctionBook::new(CONTRACT);
    create_auction(&mut book, 1_000, 1, AccountId(1), 1_000_000, AccountId(2), 1).unwrap();
    place_bid(&mut book, 1_100, 1, bid(5, 200_000, 1, 1_100)).unwrap();
    assert_eq!(place_bid(&mut book, 1_100, 1, bid(6, 209_999, 2, 1_100)), Err(ContractError::InsufficientFunds));
    assert_eq!(place_bid(&mut book, 1_100, 1, bid(6, 210_000, 2, 1_100)), Ok(()));
}

#[test]
fn replayed_nonce_is_refused() {
    let mut book = AuctionBook::new(CONTRACT);
    create_auction(&mut book, 1_000, 1, AccountId(1), 1_000_000, AccountId(2), 1).unwrap();
    place_bid(&mut book, 1_100, 1, bid(5, 200_000, 42, 1_100)).unwrap();
    assert_eq!(place_bid(&mut book, 1_100, 1, bid(6, 900_000, 42, 1_100)), Err(ContractError::ReplayAttackDetected));
    let a = get_auction(&book, 1).unwrap();
    assert_eq!(a.current_highest_bid.unwrap().amount, 200_000);
}

#[test]
fn stale_and_future_attestations_are_refused() {
    let mut book = AuctionBook::new(CONTRACT);
    create_auction(&mut book, 10_000, 1, AccountId(1), 1_000_000, AccountId(2), 1).unwrap();
    assert_eq!(place_bid(&mut book, 10_000, 1, bid(5, 200_000, 1, 10_061)), Err(ContractError::AttestationFromFuture));
    assert_eq!(place_bid(&mut book, 10_000, 1, bid(5, 200_000, 1, 6_399)), Err(ContractError::AttestationExpired));
    assert_eq!(place_bid(&mut book, 10_000, 1, bid(5, 200_000, 1, 10_060)), Ok(()));
    assert_eq!(place_bid(&mut book, 10_000, 1, bid(6, 300_000, 2, 6_400)), Ok(()));
}

#[test]
fn attestation_payload_names_contract_and_auction() {
    let mut book = AuctionBook::new(CONTRACT);
    create_auction(&mut book, 10_000, 1, AccountId(1), 1_000_000, AccountId(2), 1).unwrap();
    let auction = get_auction(&book, 1).unwrap();
    let b = bid(5, 200_000, 9, 10_000);
    let payload = verify_auction_bid_attestation(&book, 10_000, &auction, &b).unwrap();
    assert_eq!(payload.contract, CONTRACT);
    assert_eq!(payload.auction_id, 1);
    assert_eq!(payload.timestamp, 10_000);
    assert_eq!(payload.bid.nonce, 9);
    assert!(verify_auction_bid_attestation(&book, 20_000, &auction, &b).is_err());
}

#[test]
fn late_bid_ends_the_auction() {
    let mut book = AuctionBook::new(CONTRACT);
    create_auction(&mut book, 0, 1, AccountId(1), 1_000_000, AccountId(2), 1).unwrap();
    let end = DEFAULT_AUCTION_DURATION_SECS;
    assert_eq!(place_bid(&mut book, end, 1, bid(5, 200_000, 1, end)), Err(ContractError::VotingPeriodEnded));
    assert_eq!(get_auction(&book, 1).unwrap().status, AuctionStatus::Ended);
    assert_eq!(get_active_auctions(&book), vec![1]);
    assert_eq!(place_bid(&mut book, end, 1, bid(5, 200_000, 1, end)), Err(ContractError::InvalidStateTransition));
    assert_eq!(place_bid(&mut book, end, 9, bid(5, 200_000, 1, end)), Err(ContractError::ProposalNotFound));
}

#[test]
fn settlement_needs_end_and_a_bid() {
    let mut book = AuctionBook::new(CONTRACT);
    create_auction(&mut book, 0, 1, AccountId(1), 1_000_000, AccountId(2), 1).unwrap();
    assert_eq!(settle_auction(&mut book, 100, 1), Err(ContractError::TimelockDelayNotElapsed));
    place_bid(&mut book, 100, 1, bid(5, 150_000, 1, 100)).unwrap();
    let end = DEFAULT_AUCTION_DURATION_SECS;
    assert_eq!(settle_auction(&mut book, end, 1), Ok(()));
    assert_eq!(get_auction(&book, 1).unwrap().status, AuctionStatus::Settled);
    assert!(get_active_auctions(&book).is_empty());
    let n = book.events.len();
    assert_eq!(
        book.events[n - 2],
        AuctionEvent::CollateralTransfer { token: AccountId(2), from: CONTRACT, to: AccountId(5), amount: 1_000_000 }
    );
    assert_eq!(
        *book.events.last().unwrap(),
        AuctionEvent::Settled { auction_id: 1, winner: AccountId(5), amount: 150_000 }
    );
    assert_eq!(settle_auction(&mut book, end, 1), Err(ContractError::InvalidStateTransition));
    assert_eq!(cancel_auction(&mut book, 1), Err(ContractError::InvalidStateTransition));
    assert_eq!(settle_auction(&mut book, end, 2), Err(ContractError::ProposalNotFound));
}

#[test]
fn settlement_without_bid_is_refused_and_changes_nothing() {
    let mut book = AuctionBook::new(CONTRACT);
    create_auction(&mut book, 0, 1, AccountId(1), 1_000_000, AccountId(2), 1).unwrap();
    let end = DEFAULT_AUCTION_DURATION_SECS;
    assert_eq!(settle_auction(&mut book, end, 1), Err(ContractError::InsufficientFunds));
    assert_eq!(get_auction(&book, 1).unwrap().status, AuctionStatus::Active);
    assert_eq!(get_active_auctions(&book), vec![1]);
}

#[test]
fn cancelling_removes_only_that_auction() {
    let mut book = AuctionBook::new(CONTRACT);
    create_auction(&mut book, 0, 1, AccountId(1), 1_000_000, AccountId(2), 1).unwrap();
    create_auction(&mut book, 0, 2, AccountId(1), 1_000_000, AccountId(2), 1).unwrap();
    create_auction(&mut book, 0, 3, AccountId(1), 1_000_000, AccountId(2), 1).unwrap();
    cancel_auction(&mut book, 2).unwrap();
    assert_eq!(get_active_auctions(&book), vec![1, 3]);
    assert_eq!(cancel_auction(&mut book, 2), Err(ContractError::InvalidStateTransition));
    assert_eq!(cancel_auction(&mut book, 7), Err(ContractError::ProposalNotFound));
    assert_eq!(*book.events.last().unwrap(), AuctionEvent::Cancelled { auction_id: 2 });
}

#[test]
fn range_checks() {
    let mut book = AuctionBook::new(CONTRACT);
    assert!(auction_fits(&book, 0, 1, 1_000_000));
    assert!(!auction_fits(&book, u64::MAX, 1, 1_000_000));
    assert!(!auction_fits(&book, 0, 1, i128::MAX));
    create_auction(&mut book, 0, 1, AccountId(1), 1_000_000, AccountId(2), 1).unwrap();
    assert!(auction_fits(&book, u64::MAX, 1, i128::MAX));
    assert!(min_bid_computable(&book, 0, 1, &bid(6, 1, 2, 0)));
    place_bid(&mut book, 0, 1, bid(5, i128::MAX / 400, 1, 0)).unwrap();
    assert!(!min_bid_computable(&book, 0, 1, &bid(6, 1, 2, 0)));
    assert!(min_bid_computable(&book, 0, 2, &bid(6, 1, 2, 0)));
    let end = DEFAULT_AUCTION_DURATION_SECS;
    assert!(min_bid_computable(&book, end, 1, &bid(6, 1, 2, end)));
    settle_auction(&mut book, end, 1).unwrap();
    assert!(min_bid_computable(&book, end, 1, &bid(6, 1, 2, end)));
    assert_eq!(place_bid(&mut book, end, 1, bid(6, 1, 2, end)), Err(ContractError::InvalidStateTransition));
}

#[test]
fn signature_is_due_only_for_bids_that_reach_it() {
    let mut book = AuctionBook::new(CONTRACT);
    create_auction(&mut book, 0, 7, AccountId(1), 1_000_000, AccountId(2), 1).unwrap();
    let b = bid(5, 150_000, 9, 100);
    let p = payload_to_verify(&book, 100, 1, &b).unwrap();
    assert_eq!(p.contract, CONTRACT);
    assert_eq!(p.auction_id, 1);
    assert_eq!(p.timestamp, 100);
    assert!(payload_to_verify(&book, 100, 2, &b).is_none());
    assert!(payload_to_verify(&book, 100 + 3_601, 1, &b).is_none());
    assert!(payload_to_verify(&book, DEFAULT_AUCTION_DURATION_SECS, 1, &bid(5, 150_000, 9, DEFAULT_AUCTION_DURATION_SECS)).is_none());
    cancel_auction(&mut book, 1).unwrap();
    assert!(payload_to_verify(&book, 100, 1, &b).is_none());
}
