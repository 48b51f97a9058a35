//! Auctions of defaulted loan collateral, with bids attested across chains.
//!
//! When a loan defaults, its collateral (the vouch stakes) can be auctioned to
//! bidders on any supported chain:
//!
//! 1. an auction is created for the loan, with the collateral as the item;
//! 2. bidders place bids through bridge-signed attestations;
//! 3. each bid's attestation must be fresh and its bridge nonce unused;
//! 4. when the auction ends, the highest bid wins and the auction is settled;
//! 5. an auction can be cancelled while it is active (e.g. the loan was repaid).

use std::collections::HashMap;
use vstd::prelude::*;

use crate::errors::ContractError;
use crate::types::AccountId;

verus! {

broadcast use vstd::std_specs::hash::group_hash_axioms;

/// Auction duration in seconds (7 days).
pub const DEFAULT_AUCTION_DURATION_SECS: u64 = 604_800;
/// Minimum bid increment in basis points (500 = 5%).
pub const MIN_BID_INCREMENT_BPS: u32 = 500;
/// Minimum starting bid as a share of the collateral value (1000 = 10%).
pub const MIN_START_BID_BPS: u32 = 1_000;
/// Oldest accepted bid attestation, in seconds (one hour).
pub const MAX_ATTESTATION_AGE_SECS: u64 = 3_600;
/// How far in the future a bid attestation may be timestamped (one minute).
pub const MAX_FUTURE_SKEW_SECS: u64 = 60;

#[derive(Clone, Copy, Debug, PartialEq, Eq, Structural)]
pub enum AuctionStatus {
    /// Accepting bids.
    Active,
    /// Bidding is over; the winner is being determined.
    Ended,
    /// Settled and the collateral transferred.
    Settled,
    /// Cancelled (e.g. the loan was repaid during the auction).
    Cancelled,
}

/// A bid placed in an auction.
#[derive(Clone, Copy, Debug)]
pub struct AuctionBid {
    pub bidder: AccountId,
    /// Bid amount in stroops.
    pub amount: i128,
    /// Chain where the bid originated.
    pub chain_id: u32,
    /// Bridge nonce for replay protection.
    pub nonce: u64,
    /// When the bid was placed.
    pub timestamp: u64,
    /// Bridge signature attesting to the bid.
    pub signature: [u8; 64],
}

/// An auction of a defaulted loan's collateral.
#[derive(Clone, Copy, Debug)]
pub struct Auction {
    pub auction_id: u64,
    /// The loan being auctioned.
    pub loan_id: u64,
    /// The borrower whose collateral is auctioned.
    pub borrower: AccountId,
    /// Total collateral value (sum of vouch stakes) in stroops.
    pub collateral_value: i128,
    /// Token of the collateral.
    pub collateral_token: AccountId,
    pub current_highest_bid: Option<AuctionBid>,
    pub status: AuctionStatus,
    pub created_at: u64,
    pub ends_at: u64,
    /// Chain where the auction was created.
    pub origin_chain: u32,
}

/// What the bridge signs to attest a bid.
#[derive(Clone, Copy, Debug)]
pub struct AuctionAttestationPayload {
    /// The contract receiving the bid.
    pub contract: AccountId,
    pub auction_id: u64,
    pub bid: AuctionBid,
    pub timestamp: u64,
}

/// Something the auction house asks the host to carry out, in order: an
/// event to publish or a transfer of collateral.
#[derive(Clone, Copy, Debug, PartialEq, Eq, Structural)]
pub enum AuctionEvent {
    /// Move `amount` of `token` from `from` to `to`.
    CollateralTransfer { token: AccountId, from: AccountId, to: AccountId, amount: i128 },
    /// ("auction", "created").
    Created { auction_id: u64, loan_id: u64, borrower: AccountId, collateral_value: i128 },
    /// ("auction", "bid").
    Bid { auction_id: u64, bidder: AccountId, amount: i128, chain_id: u32 },
    /// ("auction", "settled").
    Settled { auction_id: u64, winner: AccountId, amount: i128 },
    /// ("auction", "cancelled").
    Cancelled { auction_id: u64 },
}

/// The auctions' storage.
pub struct AuctionBook {
    /// The contract's own account.
    pub contract: AccountId,
    /// Identifier of the most recently created auction.
    pub counter: u64,
    /// Auctions by id.
    pub auctions: HashMap<u64, Auction>,
    /// Loan id to the id of the loan's auction.
    pub auction_for_loan: HashMap<u64, u64>,
    /// Ids of the auctions that are still open, in order of creation.
    pub active: Vec<u64>,
    /// Bridge nonces already consumed, as (chain id, nonce).
    pub used_nonces: Vec<(u32, u64)>,
    /// Events and transfers not yet carried out by the host.
    pub events: Vec<AuctionEvent>,
}

/// The auction still counts as running: it is active or has ended unsettled.
pub open spec fn is_open(s: AuctionStatus) -> bool {
    s == AuctionStatus::Active || s == AuctionStatus::Ended
}

/// A tenth of `collateral` (the minimum starting bid) is computable.
pub open spec fn start_bid_fits(collateral: i128) -> bool {
    i128::MIN <= collateral * MIN_START_BID_BPS <= i128::MAX
}

/// Division rounding towards zero, as machine integers divide.
pub open spec fn trunc_div(a: int, b: int) -> int {
    if a >= 0 {
        a / b
    } else {
        -((-a) / b)
    }
}

/// The smallest bid that the auction accepts next: 5% above the highest
/// bid, or a tenth of the collateral when nobody bid yet.
pub open spec fn min_next_bid(a: Auction) -> int {
    match a.current_highest_bid {
        Some(h) => h.amount + trunc_div(h.amount * MIN_BID_INCREMENT_BPS, 10_000),
        None => trunc_div(a.collateral_value * MIN_START_BID_BPS, 10_000),
    }
}

/// The computation of `min_next_bid` stays within the machine integers.
pub open spec fn min_next_bid_fits(a: Auction) -> bool {
    match a.current_highest_bid {
        Some(h) => i128::MIN <= h.amount * MIN_BID_INCREMENT_BPS <= i128::MAX && i128::MIN
            <= h.amount + trunc_div(h.amount * MIN_BID_INCREMENT_BPS, 10_000) <= i128::MAX,
        None => start_bid_fits(a.collateral_value),
    }
}

/// `s` without any occurrence of `x`.
pub open spec fn without(s: Seq<u64>, x: u64) -> Seq<u64>
    decreases s.len(),
{
    if s.len() == 0 {
        Seq::empty()
    } else if s.last() == x {
        without(s.drop_last(), x)
    } else {
        without(s.drop_last(), x).push(s.last())
    }
}

/// The ids in `s` strictly increase.
pub open spec fn increasing(s: Seq<u64>) -> bool {
    forall|i: int, j: int| 0 <= i < j < s.len() ==> s[i] < s[j]
}

/// Every highest bid on an auction of non-negative collateral is itself
/// non-negative.
pub open spec fn bids_nonneg(auctions: Map<u64, Auction>) -> bool {
    forall|id: u64| #[trigger]
        auctions.contains_key(id) && auctions[id].collateral_value >= 0
            && auctions[id].current_highest_bid is Some ==> auctions[id].current_highest_bid->0.amount >= 0
}

/// On an auction of non-negative collateral the next acceptable bid is
/// non-negative and at least the highest bid.
pub proof fn lemma_min_next_bid_nonneg(a: Auction)
    requires
        a.collateral_value >= 0,
        a.current_highest_bid matches Some(h) ==> h.amount >= 0,
    ensures
        min_next_bid(a) >= 0,
        a.current_highest_bid matches Some(h) ==> min_next_bid(a) >= h.amount,
{
    match a.current_highest_bid {
        Some(h) => {
            assert(h.amount * MIN_BID_INCREMENT_BPS >= 0) by (nonlinear_arith)
                requires
                    h.amount >= 0,
            ;
        },
        None => {
            assert(a.collateral_value * MIN_START_BID_BPS >= 0) by (nonlinear_arith)
                requires
                    a.collateral_value >= 0,
            ;
        },
    }
}

/// No id occurs twice in `s`.
pub open spec fn no_dups(s: Seq<u64>) -> bool {
    forall|i: int, j: int| 0 <= i < j < s.len() ==> s[i] != s[j]
}

pub proof fn lemma_without(s: Seq<u64>, x: u64)
    ensures
        forall|y: u64| #[trigger] without(s, x).contains(y) <==> (s.contains(y) && y != x),
        no_dups(s) ==> no_dups(without(s, x)),
        increasing(s) ==> increasing(without(s, x)),
    decreases s.len(),
{
    if s.len() > 0 {
        lemma_without(s.drop_last(), x);
        let r = without(s.drop_last(), x);
        if increasing(s) {
            assert(increasing(s.drop_last())) by {
                assert forall|i: int, j: int| 0 <= i < j < s.drop_last().len() implies s.drop_last()[i]
                    < s.drop_last()[j] by {
                    assert(s[i] < s[j]);
                }
            }
            if s.last() != x {
                assert forall|i: int, j: int| 0 <= i < j < without(s, x).len() implies without(s, x)[i]
                    < without(s, x)[j] by {
                    if j == r.len() {
                        assert(r.contains(r[i]));
                        assert(s.drop_last().contains(r[i]));
                        let m = choose|m: int| 0 <= m < s.drop_last().len() && s.drop_last()[m] == r[i];
                        assert(s[m] < s[s.len() - 1]);
                    }
                }
            }
        }
        assert forall|y: u64| #[trigger] without(s, x).contains(y) <==> (s.contains(y) && y != x) by {
            if s.contains(y) && y != x {
                let k = choose|k: int| 0 <= k < s.len() && s[k] == y;
                if k < s.len() - 1 {
                    assert(s.drop_last()[k] == y);
                    assert(s.drop_last().contains(y));
                    assert(r.contains(y));
                    let j = choose|j: int| 0 <= j < r.len() && r[j] == y;
                    assert(without(s, x)[j] == y);
                } else if s.last() != x {
                    assert(without(s, x)[r.len() as int] == y);
                }
            }
            if without(s, x).contains(y) {
                let k = choose|k: int| 0 <= k < without(s, x).len() && without(s, x)[k] == y;
                if s.last() != x && k == r.len() {
                    assert(s[s.len() - 1] == y);
                } else {
                    assert(r[k] == y);
                    assert(r.contains(y));
                    assert(s.drop_last().contains(y));
                    let m = choose|m: int| 0 <= m < s.drop_last().len() && s.drop_last()[m] == y;
                    assert(s[m] == y);
                }
            }
        }
        if no_dups(s) {
            assert(no_dups(s.drop_last())) by {
                assert forall|i: int, j: int| 0 <= i < j < s.drop_last().len() implies s.drop_last()[i]
                    != s.drop_last()[j] by {
                    assert(s[i] != s[j]);
                }
            }
            if s.last() != x {
                assert(!r.contains(s.last())) by {
                    if r.contains(s.last()) {
                        let m = choose|m: int|
                            0 <= m < s.drop_last().len() && s.drop_last()[m] == s.last();
                        assert(s[m] == s[s.len() - 1]);
                    }
                }
                assert forall|i: int, j: int| 0 <= i < j < without(s, x).len() implies without(
                    s,
                    x,
                )[i] != without(s, x)[j] by {
                    if j == r.len() {
                        assert(r.contains(r[i]));
                    }
                }
            }
        }
    }
}

impl AuctionBook {
    /// An empty auction house for the contract at `contract`.
    pub fn new(contract: AccountId) -> (b: Self)
        ensures
            b.wf(),
            b.contract == contract,
            b.counter == 0,
            b.auctions@ == Map::<u64, Auction>::empty(),
            b.auction_for_loan@ == Map::<u64, u64>::empty(),
            b.active@ == Seq::<u64>::empty(),
            b.used_nonces@ == Seq::<(u32, u64)>::empty(),
            b.events@ == Seq::<AuctionEvent>::empty(),
    {
        AuctionBook {
            contract,
            counter: 0,
            auctions: HashMap::new(),
            auction_for_loan: HashMap::new(),
            active: Vec::new(),
            used_nonces: Vec::new(),
            events: Vec::new(),
        }
    }

    /// The auction house's invariant: ids are issued in sequence, each loan
    /// has at most one auction, and the list of open auctions holds exactly
    /// the active and ended auctions, once each.
    pub open spec fn wf(&self) -> bool {
        &&& forall|id: u64| #[trigger]
            self.auctions@.contains_key(id) ==> {
                let a = self.auctions@[id];
                &&& a.auction_id == id
                &&& 1 <= id <= self.counter
                &&& self.auction_for_loan@.contains_key(a.loan_id)
                &&& self.auction_for_loan@[a.loan_id] == id
                &&& start_bid_fits(a.collateral_value)
            }
        &&& forall|l: u64| #[trigger]
            self.auction_for_loan@.contains_key(l) ==> self.auctions@.contains_key(
                self.auction_for_loan@[l],
            ) && self.auctions@[self.auction_for_loan@[l]].loan_id == l
        &&& no_dups(self.active@)
        &&& increasing(self.active@)
        &&& bids_nonneg(self.auctions@)
        &&& forall|i: int|
            0 <= i < self.active@.len() ==> self.auctions@.contains_key(#[trigger] self.active@[i])
                && is_open(self.auctions@[self.active@[i]].status)
        &&& forall|id: u64| #[trigger]
            self.auctions@.contains_key(id) && is_open(self.auctions@[id].status)
                ==> self.active@.contains(id)
    }
}

/// Creates an auction, starting at `now`, of the collateral of `loan_id`.
///
/// Refused with `InvalidStateTransition` when the loan already has an
/// auction.  The auction gets the next auction id, is active, runs for
/// `DEFAULT_AUCTION_DURATION_SECS`, and is listed as open.
pub fn create_auction(
    book: &mut AuctionBook,
    now: u64,
    loan_id: u64,
    borrower: AccountId,
    collateral_value: i128,
    collateral_token: AccountId,
    origin_chain: u32,
) -> (r: Result<u64, ContractError>)
    requires
        old(book).wf(),
        !old(book).auction_for_loan@.contains_key(loan_id) ==> {
            &&& old(book).counter < u64::MAX
            &&& now + DEFAULT_AUCTION_DURATION_SECS <= u64::MAX
            &&& start_bid_fits(collateral_value)
        },
    ensures
        final(book).wf(),
        old(book).auction_for_loan@.contains_key(loan_id) ==> r == Err::<u64, ContractError>(
            ContractError::InvalidStateTransition,
        ) && *final(book) == *old(book),
        !old(book).auction_for_loan@.contains_key(loan_id) ==> {
            let id = (old(book).counter + 1) as u64;
            &&& r == Ok::<u64, ContractError>(id)
            &&& final(book).counter == id
            &&& !old(book).auctions@.contains_key(id)
            &&& final(book).auctions@ == old(book).auctions@.insert(
                id,
                Auction {
                    auction_id: id,
                    loan_id,
                    borrower,
                    collateral_value,
                    collateral_token,
                    current_highest_bid: None,
                    status: AuctionStatus::Active,
                    created_at: now,
                    ends_at: (now + DEFAULT_AUCTION_DURATION_SECS) as u64,
                    origin_chain,
                },
            )
            &&& final(book).auction_for_loan@ == old(book).auction_for_loan@.insert(loan_id, id)
            &&& final(book).active@ == old(book).active@.push(id)
            &&& final(book).used_nonces@ == old(book).used_nonces@
            &&& final(book).contract == old(book).contract
            &&& final(book).events@ == old(book).events@.push(
                AuctionEvent::Created { auction_id: id, loan_id, borrower, collateral_value },
            )
        },
{
    if book.auction_for_loan.contains_key(&loan_id) {
        return Err(ContractError::InvalidStateTransition);
    }
    let new_auction_id = book.counter + 1;
    assert(!book.auctions@.contains_key(new_auction_id));
    let auction = Auction {
        auction_id: new_auction_id,
        loan_id,
        borrower,
        collateral_value,
        collateral_token,
        current_highest_bid: None,
        status: AuctionStatus::Active,
        created_at: now,
        ends_at: now + DEFAULT_AUCTION_DURATION_SECS,
        origin_chain,
    };
    book.auctions.insert(new_auction_id, auction);
    book.auction_for_loan.insert(loan_id, new_auction_id);
    book.counter = new_auction_id;
    assert(!old(book).active@.contains(new_auction_id)) by {
        if old(book).active@.contains(new_auction_id) {
            let k = choose|k: int|
                0 <= k < old(book).active@.len() && old(book).active@[k] == new_auction_id;
            assert(old(book).auctions@.contains_key(old(book).active@[k]));
        }
    }
    book.active.push(new_auction_id);
    book.events.push(
        AuctionEvent::Created { auction_id: new_auction_id, loan_id, borrower, collateral_value },
    );
    proof {
        let b = *book;
        assert forall|i: int, j: int| 0 <= i < j < b.active@.len() implies b.active@[i]
            < b.active@[j] by {
            if j == b.active@.len() - 1 {
                assert(old(book).auctions@.contains_key(old(book).active@[i]));
            }
        }
        assert forall|id: u64| #[trigger] b.auctions@.contains_key(id) && b.auctions@[id].collateral_value
            >= 0 && b.auctions@[id].current_highest_bid is Some implies b.auctions@[id].current_highest_bid->0.amount
            >= 0 by {
            if id != new_auction_id {
                assert(old(book).auctions@.contains_key(id));
            }
        }
        assert forall|id: u64| #[trigger]
            b.auctions@.contains_key(id) && is_open(b.auctions@[id].status) implies b.active@.contains(
            id,
        ) by {
            if id == new_auction_id {
                assert(b.active@[b.active@.len() - 1] == id);
            } else {
                let k = choose|k: int|
                    0 <= k < old(book).active@.len() && old(book).active@[k] == id;
                assert(b.active@[k] == id);
            }
        }
        assert forall|l: u64| #[trigger] b.auction_for_loan@.contains_key(l) implies b.auctions@.contains_key(
            b.auction_for_loan@[l],
        ) && b.auctions@[b.auction_for_loan@[l]].loan_id == l by {
            if l != loan_id {
                assert(old(book).auction_for_loan@.contains_key(l));
            }
        }
    }
    Ok(new_auction_id)
}

/// `now + MAX_FUTURE_SKEW_SECS`, saturating at the largest timestamp.
pub open spec fn latest_accepted(now: u64) -> int {
    if now + MAX_FUTURE_SKEW_SECS > u64::MAX {
        u64::MAX as int
    } else {
        now + MAX_FUTURE_SKEW_SECS
    }
}

/// Age of a timestamp `ts` at `now`, 0 for timestamps in the future.
pub open spec fn age_at(now: u64, ts: u64) -> int {
    if now >= ts {
        now - ts
    } else {
        0
    }
}

/// Whether a bid attestation timestamped `ts` is acceptable at `now`.
pub open spec fn attestation_time_check(now: u64, ts: u64) -> Result<(), ContractError> {
    if ts > latest_accepted(now) {
        Err(ContractError::AttestationFromFuture)
    } else if age_at(now, ts) > MAX_ATTESTATION_AGE_SECS {
        Err(ContractError::AttestationExpired)
    } else {
        Ok(())
    }
}

/// The payload that the bridge signs for `bid` on auction `auction_id` of
/// the contract at `contract`.
pub open spec fn payload_of(contract: AccountId, auction_id: u64, bid: AuctionBid) -> AuctionAttestationPayload {
    AuctionAttestationPayload { contract, auction_id, bid, timestamp: bid.timestamp }
}

/// The attestation payload of `bid` on `auction`, which the bridge must
/// have signed.
pub fn attestation_payload(book: &AuctionBook, auction: &Auction, bid: &AuctionBid) -> (p: AuctionAttestationPayload)
    ensures
        p == payload_of(book.contract, auction.auction_id, *bid),
{
    AuctionAttestationPayload {
        contract: book.contract,
        auction_id: auction.auction_id,
        bid: *bid,
        timestamp: bid.timestamp,
    }
}

/// Checks that `bid`'s attestation is fresh at `now`: timestamped at most a
/// minute ahead and at most an hour old.  On success returns the payload
/// whose bridge signature the host verifies.
pub fn verify_auction_bid_attestation(
    book: &AuctionBook,
    now: u64,
    auction: &Auction,
    bid: &AuctionBid,
) -> (r: Result<AuctionAttestationPayload, ContractError>)
    ensures
        match attestation_time_check(now, bid.timestamp) {
            Ok(()) => r == Ok::<AuctionAttestationPayload, ContractError>(
                payload_of(book.contract, auction.auction_id, *bid),
            ),
            Err(e) => r == Err::<AuctionAttestationPayload, ContractError>(e),
        },
{
    if bid.timestamp > now.saturating_add(MAX_FUTURE_SKEW_SECS) {
        return Err(ContractError::AttestationFromFuture);
    }
    if now.saturating_sub(bid.timestamp) > MAX_ATTESTATION_AGE_SECS {
        return Err(ContractError::AttestationExpired);
    }
    Ok(attestation_payload(book, auction, bid))
}

/// The smallest acceptable next bid on `auction`.
pub fn minimum_bid(auction: &Auction) -> (m: i128)
    requires
        min_next_bid_fits(*auction),
    ensures
        m == min_next_bid(*auction),
{
    match auction.current_highest_bid {
        Some(highest) => {
            let increment = highest.amount * 500 / 10_000;
            highest.amount + increment
        },
        None => auction.collateral_value * 1_000 / 10_000,
    }
}

/// Whether the minimum next bid on auction `auction_id` can be computed
/// whenever `bid` at `now` gets as far as needing it.
pub fn min_bid_computable(book: &AuctionBook, now: u64, auction_id: u64, bid: &AuctionBid) -> (ok: bool)
    requires
        book.wf(),
    ensures
        ok == (signature_due(*book, now, auction_id, *bid) ==> min_next_bid_fits(
            book.auctions@[auction_id],
        )),
{
    if payload_to_verify(book, now, auction_id, bid).is_none() {
        return true;
    }
    match book.auctions.get(&auction_id) {
        None => true,
        Some(a) => match a.current_highest_bid {
            None => true,
            Some(h) => match h.amount.checked_mul(500) {
                None => false,
                Some(p) => h.amount.checked_add(p / 10_000).is_some(),
            },
        },
    }
}

/// Whether (chain, nonce) occurs in `used`.
pub open spec fn nonce_used(used: Seq<(u32, u64)>, chain_id: u32, nonce: u64) -> bool {
    used.contains((chain_id, nonce))
}

fn is_nonce_used(used: &Vec<(u32, u64)>, chain_id: u32, nonce: u64) -> (r: bool)
    ensures
        r == nonce_used(used@, chain_id, nonce),
{
    let n = used.len();
    for i in 0..n
        invariant
            n == used@.len(),
            forall|k: int| 0 <= k < i ==> used@[k] != (chain_id, nonce),
    {
        let (c, m) = used[i];
        if c == chain_id && m == nonce {
            assert(used@[i as int] == (chain_id, nonce));
            return true;
        }
    }
    false
}

impl AuctionBook {
    /// The outcome of `place_bid`, in the order its checks are made.
    pub open spec fn place_bid_check(&self, now: u64, auction_id: u64, bid: AuctionBid) -> Result<(), ContractError> {
        if !self.auctions@.contains_key(auction_id) {
            Err(ContractError::ProposalNotFound)
        } else {
            let a = self.auctions@[auction_id];
            if a.status != AuctionStatus::Active {
                Err(ContractError::InvalidStateTransition)
            } else if now >= a.ends_at {
                Err(ContractError::VotingPeriodEnded)
            } else if attestation_time_check(now, bid.timestamp) is Err {
                attestation_time_check(now, bid.timestamp)
            } else if bid.amount < min_next_bid(a) {
                Err(ContractError::InsufficientFunds)
            } else if nonce_used(self.used_nonces@, bid.chain_id, bid.nonce) {
                Err(ContractError::ReplayAttackDetected)
            } else {
                Ok(())
            }
        }
    }

    /// Every field but the auctions is as in `other`.
    pub open spec fn same_but_auctions(&self, other: &Self) -> bool {
        &&& self.contract == other.contract
        &&& self.counter == other.counter
        &&& self.auction_for_loan@ == other.auction_for_loan@
        &&& self.active@ == other.active@
    }
}

/// The bid on auction `auction_id` at `now` reaches the check of its bridge
/// signature: the auction exists, is active, has not reached its end time,
/// and the attestation is fresh.
pub open spec fn signature_due(book: AuctionBook, now: u64, auction_id: u64, bid: AuctionBid) -> bool {
    &&& book.auctions@.contains_key(auction_id)
    &&& book.auctions@[auction_id].status == AuctionStatus::Active
    &&& now < book.auctions@[auction_id].ends_at
    &&& attestation_time_check(now, bid.timestamp) is Ok
}

/// The attestation payload whose bridge signature the host must verify
/// before calling `place_bid`, when the bid gets that far; `None` when an
/// earlier check refuses it.
pub fn payload_to_verify(book: &AuctionBook, now: u64, auction_id: u64, bid: &AuctionBid) -> (r: Option<
    AuctionAttestationPayload,
>)
    ensures
        r == (if signature_due(*book, now, auction_id, *bid) {
            Some(payload_of(book.contract, book.auctions@[auction_id].auction_id, *bid))
        } else {
            None
        }),
{
    let auction = match book.auctions.get(&auction_id) {
        Some(a) => *a,
        None => return None,
    };
    if auction.status != AuctionStatus::Active || now >= auction.ends_at {
        return None;
    }
    match verify_auction_bid_attestation(book, now, &auction, bid) {
        Ok(p) => Some(p),
        Err(_) => None,
    }
}

/// Places `bid` on auction `auction_id` at ledger time `now`.  The host has
/// verified the bridge's signature over the bid's attestation payload.
///
/// The auction must exist and be active; a bid arriving after the end time
/// marks the auction ended and is refused.  The attestation must be fresh,
/// the bid must reach the minimum next bid, and its bridge nonce must be
/// unused.  An accepted bid consumes its nonce and becomes the highest bid.
pub fn place_bid(book: &mut AuctionBook, now: u64, auction_id: u64, bid: AuctionBid) -> (r: Result<
    (),
    ContractError,
>)
    requires
        old(book).wf(),
        old(book).auctions@.contains_key(auction_id) ==> min_next_bid_fits(
            old(book).auctions@[auction_id],
        ),
    ensures
        final(book).wf(),
        r == old(book).place_bid_check(now, auction_id, bid),
        ({
            let a = old(book).auctions@[auction_id];
            r == Err::<(), ContractError>(ContractError::VotingPeriodEnded) ==> {
                &&& final(book).auctions@ == old(book).auctions@.insert(
                    auction_id,
                    Auction { status: AuctionStatus::Ended, ..a },
                )
                &&& final(book).same_but_auctions(old(book))
                &&& final(book).used_nonces@ == old(book).used_nonces@
                &&& final(book).events@ == old(book).events@
            }
        }),
        r is Err && r != Err::<(), ContractError>(ContractError::VotingPeriodEnded) ==> *final(book)
            == *old(book),
        r is Ok ==> {
            let a = old(book).auctions@[auction_id];
            &&& final(book).auctions@ == old(book).auctions@.insert(
                auction_id,
                Auction { current_highest_bid: Some(bid), ..a },
            )
            &&& final(book).used_nonces@ == old(book).used_nonces@.push((bid.chain_id, bid.nonce))
            &&& final(book).same_but_auctions(old(book))
            &&& final(book).events@ == old(book).events@.push(
                AuctionEvent::Bid {
                    auction_id,
                    bidder: bid.bidder,
                    amount: bid.amount,
                    chain_id: bid.chain_id,
                },
            )
        },
{
    let mut auction = match book.auctions.get(&auction_id) {
        Some(a) => *a,
        None => return Err(ContractError::ProposalNotFound),
    };
    if auction.status != AuctionStatus::Active {
        return Err(ContractError::InvalidStateTransition);
    }
    if now >= auction.ends_at {
        auction.status = AuctionStatus::Ended;
        book.auctions.insert(auction_id, auction);
        proof {
            let b = *book;
            assert forall|l: u64| #[trigger] b.auction_for_loan@.contains_key(l) implies b.auctions@.contains_key(
                b.auction_for_loan@[l],
            ) && b.auctions@[b.auction_for_loan@[l]].loan_id == l by {
                assert(old(book).auction_for_loan@.contains_key(l));
            }
            assert forall|id: u64| #[trigger] b.auctions@.contains_key(id) && b.auctions@[id].collateral_value
                >= 0 && b.auctions@[id].current_highest_bid is Some implies b.auctions@[id].current_highest_bid->0.amount
                >= 0 by {
                assert(old(book).auctions@.contains_key(id));
            }
            assert forall|id: u64| #[trigger]
                b.auctions@.contains_key(id) && is_open(b.auctions@[id].status) implies b.active@.contains(
                id,
            ) by {
                assert(old(book).auctions@.contains_key(id));
            }
        }
        return Err(ContractError::VotingPeriodEnded);
    }
    verify_auction_bid_attestation(book, now, &auction, &bid)?;
    let min_bid = minimum_bid(&auction);
    if bid.amount < min_bid {
        return Err(ContractError::InsufficientFunds);
    }
    if is_nonce_used(&book.used_nonces, bid.chain_id, bid.nonce) {
        return Err(ContractError::ReplayAttackDetected);
    }
    book.used_nonces.push((bid.chain_id, bid.nonce));
    auction.current_highest_bid = Some(bid);
    book.auctions.insert(auction_id, auction);
    book.events.push(
        AuctionEvent::Bid { auction_id, bidder: bid.bidder, amount: bid.amount, chain_id: bid.chain_id },
    );
    proof {
        let b = *book;
        assert forall|l: u64| #[trigger] b.auction_for_loan@.contains_key(l) implies b.auctions@.contains_key(
            b.auction_for_loan@[l],
        ) && b.auctions@[b.auction_for_loan@[l]].loan_id == l by {
            assert(old(book).auction_for_loan@.contains_key(l));
        }
        assert forall|id: u64| #[trigger]
            b.auctions@.contains_key(id) && is_open(b.auctions@[id].status) implies b.active@.contains(
            id,
        ) by {
            assert(old(book).auctions@.contains_key(id));
        }
        assert forall|id: u64| #[trigger] b.auctions@.contains_key(id) && b.auctions@[id].collateral_value
            >= 0 && b.auctions@[id].current_highest_bid is Some implies b.auctions@[id].current_highest_bid->0.amount
            >= 0 by {
            assert(old(book).auctions@.contains_key(id));
            if id == auction_id {
                lemma_min_next_bid_nonneg(old(book).auctions@[auction_id]);
            }
        }
    }
    Ok(())
}

/// Drops `auction_id` from the list of open auctions.
fn remove_from_active(book: &mut AuctionBook, auction_id: u64)
    ensures
        final(book).active@ == without(old(book).active@, auction_id),
        final(book).contract == old(book).contract,
        final(book).counter == old(book).counter,
        final(book).auctions@ == old(book).auctions@,
        final(book).auction_for_loan@ == old(book).auction_for_loan@,
        final(book).used_nonces@ == old(book).used_nonces@,
        final(book).events@ == old(book).events@,
{
    let mut kept: Vec<u64> = Vec::new();
    let n = book.active.len();
    for i in 0..n
        invariant
            n == book.active@.len(),
            book.active@ == old(book).active@,
            kept@ == without(book.active@.take(i as int), auction_id),
    {
        assert(book.active@.take(i + 1).drop_last() =~= book.active@.take(i as int));
        let id = book.active[i];
        if id != auction_id {
            kept.push(id);
        }
    }
    assert(book.active@.take(n as int) =~= book.active@);
    book.active = kept;
}

/// The open-auction list is right again once `auction_id`, whose status
/// became `status` (not open), is dropped from it.
proof fn lemma_closed_auction(old_book: AuctionBook, new_book: AuctionBook, auction_id: u64, status: AuctionStatus)
    requires
        old_book.wf(),
        old_book.auctions@.contains_key(auction_id),
        !is_open(status),
        new_book.auctions@ == old_book.auctions@.insert(
            auction_id,
            Auction { status, ..old_book.auctions@[auction_id] },
        ),
        new_book.active@ == without(old_book.active@, auction_id),
        new_book.counter == old_book.counter,
        new_book.auction_for_loan@ == old_book.auction_for_loan@,
    ensures
        new_book.wf(),
{
    lemma_without(old_book.active@, auction_id);
    assert forall|id: u64| #[trigger] new_book.auctions@.contains_key(id) && new_book.auctions@[id].collateral_value
        >= 0 && new_book.auctions@[id].current_highest_bid is Some implies new_book.auctions@[id].current_highest_bid->0.amount
        >= 0 by {
        assert(old_book.auctions@.contains_key(id));
    }
    assert forall|l: u64| #[trigger] new_book.auction_for_loan@.contains_key(l) implies new_book.auctions@.contains_key(
        new_book.auction_for_loan@[l],
    ) && new_book.auctions@[new_book.auction_for_loan@[l]].loan_id == l by {
        assert(old_book.auction_for_loan@.contains_key(l));
    }
    assert forall|i: int| 0 <= i < new_book.active@.len() implies new_book.auctions@.contains_key(
        #[trigger] new_book.active@[i],
    ) && is_open(new_book.auctions@[new_book.active@[i]].status) by {
        let id = new_book.active@[i];
        assert(new_book.active@.contains(id));
        assert(old_book.active@.contains(id));
        let k = choose|k: int| 0 <= k < old_book.active@.len() && old_book.active@[k] == id;
        assert(old_book.auctions@.contains_key(old_book.active@[k]));
    }
    assert forall|id: u64| #[trigger]
        new_book.auctions@.contains_key(id) && is_open(new_book.auctions@[id].status) implies new_book.active@.contains(
        id,
    ) by {
        assert(old_book.auctions@.contains_key(id));
        assert(old_book.active@.contains(id));
    }
}

impl AuctionBook {
    /// The outcome of `settle_auction`, in the order its checks are made.
    pub open spec fn settle_check(&self, now: u64, auction_id: u64) -> Result<(), ContractError> {
        if !self.auctions@.contains_key(auction_id) {
            Err(ContractError::ProposalNotFound)
        } else {
            let a = self.auctions@[auction_id];
            if !is_open(a.status) {
                Err(ContractError::InvalidStateTransition)
            } else if now < a.ends_at && a.status == AuctionStatus::Active {
                Err(ContractError::TimelockDelayNotElapsed)
            } else if a.current_highest_bid is None {
                Err(ContractError::InsufficientFunds)
            } else {
                Ok(())
            }
        }
    }
}

/// Settles auction `auction_id` at ledger time `now`: the highest bid wins.
///
/// The auction must be active or ended, past its end time when still active,
/// and must have a bid.  The collateral is transferred from the contract to
/// the winning bidder, and the settled auction leaves the list of open
/// auctions.
pub fn settle_auction(book: &mut AuctionBook, now: u64, auction_id: u64) -> (r: Result<(), ContractError>)
    requires
        old(book).wf(),
    ensures
        final(book).wf(),
        r == old(book).settle_check(now, auction_id),
        r is Err ==> *final(book) == *old(book),
        r is Ok ==> {
            let a = old(book).auctions@[auction_id];
            let h = a.current_highest_bid->0;
            &&& final(book).auctions@ == old(book).auctions@.insert(
                auction_id,
                Auction { status: AuctionStatus::Settled, ..a },
            )
            &&& final(book).active@ == without(old(book).active@, auction_id)
            &&& final(book).contract == old(book).contract
            &&& final(book).counter == old(book).counter
            &&& final(book).auction_for_loan@ == old(book).auction_for_loan@
            &&& final(book).used_nonces@ == old(book).used_nonces@
            &&& final(book).events@ == old(book).events@.push(
                AuctionEvent::CollateralTransfer {
                    token: a.collateral_token,
                    from: old(book).contract,
                    to: h.bidder,
                    amount: a.collateral_value,
                },
            ).push(AuctionEvent::Settled { auction_id, winner: h.bidder, amount: h.amount })
        },
{
    let mut auction = match book.auctions.get(&auction_id) {
        Some(a) => *a,
        None => return Err(ContractError::ProposalNotFound),
    };
    if auction.status != AuctionStatus::Active && auction.status != AuctionStatus::Ended {
        return Err(ContractError::InvalidStateTransition);
    }
    if now < auction.ends_at && auction.status == AuctionStatus::Active {
        return Err(ContractError::TimelockDelayNotElapsed);
    }
    let highest_bid = match auction.current_highest_bid {
        Some(b) => b,
        None => return Err(ContractError::InsufficientFunds),
    };
    auction.status = AuctionStatus::Settled;
    book.auctions.insert(auction_id, auction);
    remove_from_active(book, auction_id);
    let contract = book.contract;
    book.events.push(
        AuctionEvent::CollateralTransfer {
            token: auction.collateral_token,
            from: contract,
            to: highest_bid.bidder,
            amount: auction.collateral_value,
        },
    );
    book.events.push(
        AuctionEvent::Settled { auction_id, winner: highest_bid.bidder, amount: highest_bid.amount },
    );
    proof {
        lemma_closed_auction(*old(book), *book, auction_id, AuctionStatus::Settled);
    }
    Ok(())
}

impl AuctionBook {
    /// The outcome of `cancel_auction`, in the order its checks are made.
    pub open spec fn cancel_check(&self, auction_id: u64) -> Result<(), ContractError> {
        if !self.auctions@.contains_key(auction_id) {
            Err(ContractError::ProposalNotFound)
        } else if self.auctions@[auction_id].status != AuctionStatus::Active {
            Err(ContractError::InvalidStateTransition)
        } else {
            Ok(())
        }
    }
}

/// Cancels the active auction `auction_id` (e.g. because the loan was
/// repaid); it leaves the list of open auctions.
pub fn cancel_auction(book: &mut AuctionBook, auction_id: u64) -> (r: Result<(), ContractError>)
    requires
        old(book).wf(),
    ensures
        final(book).wf(),
        r == old(book).cancel_check(auction_id),
        r is Err ==> *final(book) == *old(book),
        r is Ok ==> {
            let a = old(book).auctions@[auction_id];
            &&& final(book).auctions@ == old(book).auctions@.insert(
                auction_id,
                Auction { status: AuctionStatus::Cancelled, ..a },
            )
            &&& final(book).active@ == without(old(book).active@, auction_id)
            &&& final(book).contract == old(book).contract
            &&& final(book).counter == old(book).counter
            &&& final(book).auction_for_loan@ == old(book).auction_for_loan@
            &&& final(book).used_nonces@ == old(book).used_nonces@
            &&& final(book).events@ == old(book).events@.push(AuctionEvent::Cancelled { auction_id })
        },
{
    let mut auction = match book.auctions.get(&auction_id) {
        Some(a) => *a,
        None => return Err(ContractError::ProposalNotFound),
    };
    if auction.status != AuctionStatus::Active {
        return Err(ContractError::InvalidStateTransition);
    }
    auction.status = AuctionStatus::Cancelled;
    book.auctions.insert(auction_id, auction);
    remove_from_active(book, auction_id);
    book.events.push(AuctionEvent::Cancelled { auction_id });
    proof {
        lemma_closed_auction(*old(book), *book, auction_id, AuctionStatus::Cancelled);
    }
    Ok(())
}

/// The auction with id `auction_id`, if any.
pub fn get_auction(book: &AuctionBook, auction_id: u64) -> (r: Option<Auction>)
    ensures
        r == (if book.auctions@.contains_key(auction_id) {
            Some(book.auctions@[auction_id])
        } else {
            None
        }),
{
    match book.auctions.get(&auction_id) {
        Some(a) => Some(*a),
        None => None,
    }
}

/// The id of the auction of loan `loan_id`, if any.
pub fn get_auction_for_loan(book: &AuctionBook, loan_id: u64) -> (r: Option<u64>)
    ensures
        r == (if book.auction_for_loan@.contains_key(loan_id) {
            Some(book.auction_for_loan@[loan_id])
        } else {
            None
        }),
{
    match book.auction_for_loan.get(&loan_id) {
        Some(id) => Some(*id),
        None => None,
    }
}

/// The ids of the open auctions, in order of creation.
pub fn get_active_auctions(book: &AuctionBook) -> (r: Vec<u64>)
    ensures
        r@ == book.active@,
{
    let mut out: Vec<u64> = Vec::new();
    let n = book.active.len();
    for i in 0..n
        invariant
            n == book.active@.len(),
            out@ == book.active@.take(i as int),
    {
        out.push(book.active[i]);
        assert(out@ =~= book.active@.take(i + 1));
    }
    assert(book.active@.take(n as int) =~= book.active@);
    out
}

/// Whether creating an auction of `loan_id`'s collateral at `now`, if the
/// loan has none yet, stays within the machine integers.
pub fn auction_fits(book: &AuctionBook, now: u64, loan_id: u64, collateral_value: i128) -> (r: bool)
    ensures
        r == (!book.auction_for_loan@.contains_key(loan_id) ==> {
            &&& book.counter < u64::MAX
            &&& now + DEFAULT_AUCTION_DURATION_SECS <= u64::MAX
            &&& start_bid_fits(collateral_value)
        }),
{
    if book.auction_for_loan.contains_key(&loan_id) {
        return true;
    }
    book.counter < u64::MAX && now.checked_add(DEFAULT_AUCTION_DURATION_SECS).is_some()
        && collateral_value.checked_mul(1_000).is_some()
}

} // verus!
