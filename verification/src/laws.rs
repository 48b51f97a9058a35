//! Properties of the protocol that span operations or hold of every input.

use vstd::prelude::*;

use crate::auction::{
    attestation_time_check, is_open, lemma_min_next_bid_nonneg, min_next_bid, no_dups, nonce_used, trunc_div,
    AuctionBid, AuctionBook, AuctionStatus, MIN_BID_INCREMENT_BPS,
};
use crate::contract::{loan_wf, Effect, QuorumCreditContract};
use crate::errors::ContractError;
use crate::helpers::distinct;
use crate::lending::{
    outstanding_of, payout_effects, restructured_amount, restructured_yield, vouched_by, yield_share,
};
use crate::metrics::{
    decimal, digit_char, gauge_added, get_metrics_spec, metric_block, prometheus_text, signed_decimal,
    CounterKey, GaugeKey, MetricsStore, ACTIVE_LOANS_HELP, ACTIVE_LOANS_NAME, CONTRACT_BALANCE_HELP,
    CONTRACT_BALANCE_NAME, TOTAL_LOANS_HELP, TOTAL_LOANS_NAME, TOTAL_SLASHED_HELP, TOTAL_SLASHED_NAME,
    TOTAL_STAKE_HELP, TOTAL_STAKE_NAME, TOTAL_VOUCHES_HELP, TOTAL_VOUCHES_NAME, TOTAL_YIELD_HELP,
    TOTAL_YIELD_NAME,
};
use crate::search::contains_text;
use crate::stake::{
    lemma_stake_le_token_stake, lemma_stake_le_total, lemma_sums_nonneg, sector_stake, stakes_bounded,
    token_stake, total_staked, MAX_BORROWER_STAKE,
};
use crate::types::{AccountId, LoanRecord, LoanStatus, QueuedWithdrawal, VouchRecord};
use crate::vouching::{
    fee_ordered, first_vouch_by, lemma_first_vouch_by, lemma_others_nonneg, lemma_redistribute_total,
    others_in_token, queue_position, redistribute, PARTIAL_WITHDRAW_PENALTY_PERCENT,
};
use crate::webhook::{first_with_id, lists_event, recipients, subscription_ids, WebhookSubscription};

verus! {

// ── Repayment payouts ─────────────────────────────────────────────────────────

/// Total amount moved by the transfers among `es`.
pub open spec fn paid_out(es: Seq<Effect>) -> int
    decreases es.len(),
{
    if es.len() == 0 {
        0
    } else {
        paid_out(es.drop_last()) + match es.last() {
            Effect::Transfer { amount, .. } => amount as int,
            Effect::Event(_) => 0,
        }
    }
}

pub proof fn lemma_paid_out_concat(a: Seq<Effect>, b: Seq<Effect>)
    ensures
        paid_out(a + b) == paid_out(a) + paid_out(b),
    decreases b.len(),
{
    if b.len() > 0 {
        assert((a + b).drop_last() =~= a + b.drop_last());
        lemma_paid_out_concat(a, b.drop_last());
    }
}

proof fn lemma_floor_sum(a: int, b: int, t: int)
    requires
        t > 0,
        a >= 0,
        b >= 0,
    ensures
        a / t + b / t <= (a + b) / t,
{
    assert(a / t + b / t <= (a + b) / t) by (nonlinear_arith)
        requires
            t > 0,
            a >= 0,
            b >= 0,
    ;
}

proof fn lemma_payouts_prefix(vs: Seq<VouchRecord>, token: AccountId, y: int, t: int, from: AccountId)
    requires
        stakes_bounded(vs),
        0 <= y <= MAX_BORROWER_STAKE,
        t >= token_stake(vs, token),
    ensures
        token_stake(vs, token) <= paid_out(payout_effects(vs, token, y, t, from)),
        paid_out(payout_effects(vs, token, y, t, from)) <= token_stake(vs, token) + (if t > 0 {
            y * token_stake(vs, token) / t
        } else {
            0
        }),
    decreases vs.len(),
{
    if vs.len() > 0 {
        let p = vs.drop_last();
        let last = vs.last();
        assert(last.stake > 0) by {
            assert(vs[vs.len() - 1].stake > 0);
        }
        assert(stakes_bounded(p)) by {
            assert forall|i: int| 0 <= i < p.len() implies #[trigger] p[i].stake > 0 by {
                assert(vs[i].stake > 0);
            }
            lemma_sums_nonneg(p, token, Seq::empty());
        }
        lemma_sums_nonneg(p, token, Seq::empty());
        lemma_sums_nonneg(vs, token, Seq::empty());
        lemma_payouts_prefix(p, token, y, t, from);
        let sp = token_stake(p, token);
        if last.token == token {
            let s = last.stake as int;
            let share = yield_share(y, s, t);
            assert(s <= token_stake(vs, token)) by {
                lemma_stake_le_token_stake(vs, token, vs.len() - 1);
            }
            assert(s <= total_staked(vs)) by {
                lemma_sums_nonneg(vs, token, Seq::empty());
            }
            if t > 0 {
                assert(0 <= y * s) by (nonlinear_arith)
                    requires
                        y >= 0,
                        s > 0,
                ;
                assert(0 <= y * sp) by (nonlinear_arith)
                    requires
                        y >= 0,
                        sp >= 0,
                ;
                assert(y * s / t <= y) by (nonlinear_arith)
                    requires
                        y >= 0,
                        0 < s <= t,
                ;
                lemma_floor_sum(y * sp, y * s, t);
                assert(y * sp + y * s == y * (sp + s)) by (nonlinear_arith);
                assert(0 <= y * s / t) by (nonlinear_arith)
                    requires
                        y * s >= 0,
                        t > 0,
                ;
            }
            assert(s + share <= i128::MAX);
            lemma_paid_out_concat(
                payout_effects(p, token, y, t, from),
                seq![crate::contract::transfer(token, from, last.voucher, s + share)],
            );
            assert(paid_out(seq![crate::contract::transfer(token, from, last.voucher, s + share)])
                == s + share) by {
                reveal_with_fuel(paid_out, 2);
            }
        } else {
            assert(payout_effects(vs, token, y, t, from) =~= payout_effects(p, token, y, t, from));
        }
    }
}

/// When a loan is repaid in full, the vouchers in the loan's token are paid
/// back at least their stakes and at most their stakes plus the loan's
/// yield: the yield shares never add up to more than the yield.
pub proof fn lemma_payouts_within_yield(vs: Seq<VouchRecord>, token: AccountId, total_yield: int, from: AccountId)
    requires
        stakes_bounded(vs),
        0 <= total_yield <= MAX_BORROWER_STAKE,
    ensures
        token_stake(vs, token) <= paid_out(
            payout_effects(vs, token, total_yield, token_stake(vs, token), from),
        ) <= token_stake(vs, token) + total_yield,
{
    let t = token_stake(vs, token);
    lemma_payouts_prefix(vs, token, total_yield, t, from);
    if t > 0 {
        assert(total_yield * t / t == total_yield) by (nonlinear_arith)
            requires
                t > 0,
        ;
    }
}

// ── Lending ───────────────────────────────────────────────────────────────────

/// Every granted loan request is backed by stakes of which no single sector
/// provides more than half.
pub proof fn lemma_granted_loans_diversified(
    c: QuorumCreditContract,
    borrower: AccountId,
    amount: i128,
    threshold: i128,
    purpose: Seq<char>,
    token: AccountId,
)
    requires
        c.request_loan_check(borrower, amount, threshold, purpose, token) is Ok,
    ensures
        token_stake(c.vouches_of(borrower), token) >= threshold,
        token_stake(c.vouches_of(borrower), token) > 0 ==> forall|i: int|
            0 <= i < c.vouches_of(borrower).len() && c.vouches_of(borrower)[i].token == token ==> 2
                * sector_stake(c.vouches_of(borrower), token, #[trigger] c.vouches_of(borrower)[i].sector@)
                <= token_stake(c.vouches_of(borrower), token),
{
}

/// In every well-formed state, no loan has been repaid more than it owes,
/// its yield is not negative, and an active loan still owes something.
pub proof fn lemma_repaid_within_owed(c: QuorumCreditContract, id: u64)
    requires
        c.wf(),
        c.loans@.contains_key(id),
    ensures
        0 <= c.loans@[id].total_yield,
        0 <= c.loans@[id].amount_repaid <= c.loans@[id].amount + c.loans@[id].total_yield,
        c.loans@[id].status == LoanStatus::Active ==> c.loans@[id].amount_repaid < c.loans@[id].amount
            + c.loans@[id].total_yield,
{
}

/// A borrower has at most one active loan: while one is active, every
/// further request is refused, with `ActiveLoanExists` unless the contract
/// is paused.
pub proof fn lemma_one_active_loan(
    c: QuorumCreditContract,
    borrower: AccountId,
    amount: i128,
    threshold: i128,
    purpose: Seq<char>,
    token: AccountId,
)
    requires
        c.has_active(borrower),
    ensures
        c.request_loan_check(borrower, amount, threshold, purpose, token) == (if c.paused {
            Err::<(), ContractError>(ContractError::ContractPaused)
        } else {
            Err(ContractError::ActiveLoanExists)
        }),
{
}

/// Once a borrower has no active loan, as after a settling repayment, every
/// repayment is refused, with `NoActiveLoan` unless the contract is paused.
pub proof fn lemma_no_repayment_without_loan(c: QuorumCreditContract, borrower: AccountId, payment: i128)
    requires
        c.active_record(borrower) is None,
    ensures
        c.repay_check(borrower, payment) == (if c.paused {
            Err::<(), ContractError>(ContractError::ContractPaused)
        } else {
            Err(ContractError::NoActiveLoan)
        }),
{
}

/// An approval is accepted only from a voucher of the borrower who has not
/// approved the pending request yet, so the approvals of a pending request
/// hold no account twice.
pub proof fn lemma_approvals_from_vouchers(c: QuorumCreditContract, voucher: AccountId, borrower: AccountId)
    requires
        c.wf(),
        c.approve_check(voucher, borrower) is Ok,
    ensures
        vouched_by(c.vouches_of(borrower), voucher),
        !c.restructure_requests@[borrower.0].approvals@.contains(voucher),
        distinct(c.restructure_requests@[borrower.0].approvals@),
        distinct(c.restructure_requests@[borrower.0].approvals@.push(voucher)),
{
    let a = c.restructure_requests@[borrower.0].approvals@;
    assert forall|i: int, j: int| 0 <= i < j < a.push(voucher).len() implies a.push(voucher)[i]
        != a.push(voucher)[j] by {
        if j == a.len() {
            assert(a[i] == a.push(voucher)[i]);
        }
    }
}

/// A purpose that appears anywhere on the whitelist, or any purpose when the
/// whitelist is empty, is never the reason a loan request is refused.
pub proof fn lemma_whitelisted_purpose_never_refused(
    c: QuorumCreditContract,
    borrower: AccountId,
    amount: i128,
    threshold: i128,
    purpose: Seq<char>,
    token: AccountId,
)
    requires
        c.config is Some,
        c.config->0.allowed_purposes@.len() == 0 || exists|k: int|
            0 <= k < c.config->0.allowed_purposes@.len() && #[trigger] c.config->0.allowed_purposes@[k]@
                == purpose,
    ensures
        c.request_loan_check(borrower, amount, threshold, purpose, token) != Err::<(), ContractError>(
            ContractError::LoanPurposeNotAllowed,
        ),
{
}

/// A purpose that no entry of a non-empty whitelist equals is refused with
/// `LoanPurposeNotAllowed` once the checks before it pass.
pub proof fn lemma_unlisted_purpose_refused(
    c: QuorumCreditContract,
    borrower: AccountId,
    amount: i128,
    threshold: i128,
    purpose: Seq<char>,
    token: AccountId,
)
    requires
        c.config is Some,
        c.config->0.allowed_purposes@.len() > 0,
        forall|k: int|
            0 <= k < c.config->0.allowed_purposes@.len() ==> #[trigger] c.config->0.allowed_purposes@[k]@
                != purpose,
        !c.paused,
        !c.has_active(borrower),
        c.config->0.token == token,
        amount >= c.config->0.min_loan_amount,
        token_stake(c.vouches_of(borrower), token) >= threshold,
    ensures
        c.request_loan_check(borrower, amount, threshold, purpose, token) == Err::<(), ContractError>(
            ContractError::LoanPurposeNotAllowed,
        ),
{
}

/// An approval makes a pending restructure take effect exactly when, once it
/// is counted, every voucher of the borrower has approved: while any vouch
/// is by someone who is neither the approver nor among the earlier
/// approvals, the request stays pending.
pub proof fn lemma_restructure_needs_every_voucher(c: QuorumCreditContract, voucher: AccountId, borrower: AccountId)
    ensures
        c.approval_completes(voucher, borrower) <==> forall|j: int|
            0 <= j < c.vouches_of(borrower).len() ==> (#[trigger] c.vouches_of(borrower)[j].voucher
                == voucher || c.restructure_requests@[borrower.0].approvals@.contains(
                c.vouches_of(borrower)[j].voucher,
            )),
        forall|j: int|
            0 <= j < c.vouches_of(borrower).len() && #[trigger] c.vouches_of(borrower)[j].voucher != voucher
                && !c.restructure_requests@[borrower.0].approvals@.contains(c.vouches_of(borrower)[j].voucher)
                ==> !c.approval_completes(voucher, borrower),
{
    let vs = c.vouches_of(borrower);
    let a = c.restructure_requests@[borrower.0].approvals@;
    let ap = a.push(voucher);
    assert forall|x: AccountId| ap.contains(x) <==> (x == voucher || a.contains(x)) by {
        if ap.contains(x) {
            let w = choose|w: int| 0 <= w < ap.len() && ap[w] == x;
            if w < a.len() {
                assert(a[w] == x);
            }
        }
        if a.contains(x) {
            let w = choose|w: int| 0 <= w < a.len() && a[w] == x;
            assert(ap[w] == x);
        }
        if x == voucher {
            assert(ap[a.len() as int] == x);
        }
    }
}

/// A restructure to a positive amount below what is still owed reduces
/// what is owed to exactly that amount, taking the difference off the yield
/// before the principal; otherwise what is owed stays.  It never raises the
/// yield or the principal, and leaves a loan that still owes something.
pub proof fn lemma_restructure_reaches_requested_amount(l: LoanRecord, id: u64, counter: u64, new_amount: i128)
    requires
        loan_wf(l, id, counter),
    ensures
        ({
            let y = restructured_yield(l, new_amount);
            let a = restructured_amount(l, new_amount);
            &&& a + y - l.amount_repaid == (if new_amount > 0 && outstanding_of(l) > new_amount {
                new_amount as int
            } else {
                outstanding_of(l)
            })
            &&& 0 <= y <= l.total_yield
            &&& 0 < a <= l.amount
            &&& a < l.amount ==> y == 0
            &&& l.amount_repaid <= a + y
        }),
{
}

/// Once a repayment settles a loan, the borrower no longer has an active
/// loan and may request a new one.
pub proof fn lemma_settled_borrower_free(old_c: QuorumCreditContract, new_c: QuorumCreditContract, borrower: AccountId)
    requires
        new_c.active_loans@ == old_c.active_loans@.remove(borrower.0),
    ensures
        !new_c.has_active(borrower),
        new_c.active_record(borrower) is None,
{
}

// ── Withdrawal queue ──────────────────────────────────────────────────────────

/// Inserting a request at its priority position keeps a queue ordered by
/// priority fee, highest first.
pub proof fn lemma_queue_stays_ordered(q: Seq<QueuedWithdrawal>, entry: QueuedWithdrawal)
    requires
        fee_ordered(q),
    ensures
        fee_ordered(q.insert(queue_position(q, entry.priority_fee), entry)),
    decreases q.len(),
{
    if q.len() > 0 && q[0].priority_fee >= entry.priority_fee {
        let rest = q.drop_first();
        assert(fee_ordered(rest)) by {
            assert forall|i: int, j: int| 0 <= i < j < rest.len() implies rest[i].priority_fee
                >= rest[j].priority_fee by {
                assert(q[i + 1].priority_fee >= q[j + 1].priority_fee);
            }
        }
        lemma_queue_stays_ordered(rest, entry);
        lemma_queue_position_bound(rest, entry.priority_fee);
        let p = queue_position(rest, entry.priority_fee);
        let ins = rest.insert(p, entry);
        assert(q.insert(queue_position(q, entry.priority_fee), entry) =~= seq![q[0]] + ins);
        assert forall|j: int| 0 <= j < ins.len() implies q[0].priority_fee >= #[trigger] ins[j].priority_fee by {
            if j < p {
                assert(ins[j] == rest[j]);
                assert(q[0].priority_fee >= q[j + 1].priority_fee);
            } else if j > p {
                assert(ins[j] == rest[j - 1]);
                assert(q[0].priority_fee >= q[j].priority_fee);
            }
        }
    } else {
        assert forall|i: int, j: int|
            0 <= i < j < q.insert(0, entry).len() implies q.insert(0, entry)[i].priority_fee >= q.insert(
            0,
            entry,
        )[j].priority_fee by {
            if i == 0 {
                if q.len() > 0 {
                    assert(q[0].priority_fee < entry.priority_fee);
                    assert(q[0].priority_fee >= q[j - 1].priority_fee);
                }
            } else {
                assert(q[i - 1].priority_fee >= q[j - 1].priority_fee);
            }
        }
    }
}

proof fn lemma_queue_position_bound(q: Seq<QueuedWithdrawal>, fee: i128)
    ensures
        0 <= queue_position(q, fee) <= q.len(),
    decreases q.len(),
{
    if q.len() > 0 {
        lemma_queue_position_bound(q.drop_first(), fee);
    }
}

// ── Vouches ───────────────────────────────────────────────────────────────────

/// Withdrawing the vouch that a voucher who had not vouched before just
/// added removes exactly that vouch, and refunds its whole stake.
pub proof fn lemma_withdraw_undoes_vouch(vs: Seq<VouchRecord>, added: VouchRecord)
    requires
        !vouched_by(vs, added.voucher),
    ensures
        first_vouch_by(vs.push(added), added.voucher) == vs.len(),
        vs.push(added).remove(vs.len() as int) == vs,
        vs.push(added)[first_vouch_by(vs.push(added), added.voucher)] == added,
{
    let w = vs.push(added);
    assert forall|k: int| 0 <= k < vs.len() implies w[k].voucher != added.voucher by {
        assert(w[k] == vs[k]);
        if vs[k].voucher == added.voucher {
            assert(vouched_by(vs, added.voucher));
        }
    }
    lemma_first_vouch_by(w, added.voucher, vs.len() as int);
    assert(w.remove(vs.len() as int) =~= vs);
}

/// A partial withdrawal never creates stake: the stake left with the
/// borrower plus what the voucher is paid falls short of the stake before
/// by exactly the part of the penalty that does not divide evenly among the
/// other vouches, which is less than their number (all of the penalty when
/// there is none).
pub proof fn lemma_partial_withdraw_conserves(vs: Seq<VouchRecord>, k: int)
    requires
        stakes_bounded(vs),
        0 <= k < vs.len(),
    ensures
        ({
            let v = vs[k];
            let withdrawn = v.stake / 2;
            let penalty = withdrawn / (PARTIAL_WITHDRAW_PENALTY_PERCENT as int);
            let others = others_in_token(vs, k, v.token);
            let share = if others > 0 { penalty / others } else { 0 };
            let kept = penalty - share * others;
            &&& total_staked(redistribute(vs, k, v.token, withdrawn, share)) + (withdrawn - penalty)
                + kept == total_staked(vs)
            &&& 0 <= kept
            &&& others > 0 ==> kept < others
            &&& others == 0 ==> kept == penalty
        }),
{
    let v = vs[k];
    let withdrawn = v.stake / 2;
    let penalty = withdrawn / (PARTIAL_WITHDRAW_PENALTY_PERCENT as int);
    let others = others_in_token(vs, k, v.token);
    let share = if others > 0 { penalty / others } else { 0 };
    assert forall|j: int| 0 <= j < vs.len() implies 0 < #[trigger] vs[j].stake <= MAX_BORROWER_STAKE by {
        lemma_stake_le_total(vs, j);
    }
    lemma_others_nonneg(vs, k, v.token);
    assert(0 <= share <= penalty) by (nonlinear_arith)
        requires
            penalty >= 0,
            others >= 0,
            others > 0 ==> share == penalty / others,
            others == 0 ==> share == 0,
    ;
    lemma_redistribute_total(vs, k, v.token, withdrawn, share);
    if others > 0 {
        assert(0 <= penalty - share * others < others) by (nonlinear_arith)
            requires
                penalty >= 0,
                others > 0,
                share == penalty / others,
        ;
    }
}

// ── Auctions ──────────────────────────────────────────────────────────────────

/// No loan has more than one auction.
pub proof fn lemma_one_auction_per_loan(book: AuctionBook, id1: u64, id2: u64)
    requires
        book.wf(),
        book.auctions@.contains_key(id1),
        book.auctions@.contains_key(id2),
        book.auctions@[id1].loan_id == book.auctions@[id2].loan_id,
    ensures
        id1 == id2,
{
}

/// In every well-formed auction book the list of active auctions holds
/// exactly the auctions that are active or ended and not yet settled, each
/// once and in increasing id order.
pub proof fn lemma_active_list_is_open_auctions(book: AuctionBook, id: u64)
    requires
        book.wf(),
    ensures
        book.active@.contains(id) <==> (book.auctions@.contains_key(id) && is_open(book.auctions@[id].status)),
        no_dups(book.active@),
        forall|i: int, j: int| 0 <= i < j < book.active@.len() ==> book.active@[i] < book.active@[j],
{
    if book.active@.contains(id) {
        let i = choose|i: int| 0 <= i < book.active@.len() && book.active@[i] == id;
        assert(book.auctions@.contains_key(book.active@[i]));
    }
}

/// On an auction of non-negative collateral every accepted bid is at least
/// 5% above the highest bid it replaces, so accepted bids never decrease and
/// the highest bid is the largest one accepted.
pub proof fn lemma_bids_never_decrease(book: AuctionBook, now: u64, auction_id: u64, bid: AuctionBid)
    requires
        book.wf(),
        book.place_bid_check(now, auction_id, bid) is Ok,
        book.auctions@[auction_id].collateral_value >= 0,
    ensures
        bid.amount >= 0,
        book.auctions@[auction_id].current_highest_bid matches Some(h) ==> bid.amount >= h.amount
            + trunc_div(h.amount * MIN_BID_INCREMENT_BPS, 10_000) >= h.amount,
{
    let a = book.auctions@[auction_id];
    lemma_min_next_bid_nonneg(a);
}

/// A bid that carries a bridge nonce already consumed is refused as a
/// replay once it passes the status, time, attestation and minimum-bid
/// checks, whatever auction it is placed on.
pub proof fn lemma_replay_refused(book: AuctionBook, now: u64, auction_id: u64, bid: AuctionBid)
    requires
        nonce_used(book.used_nonces@, bid.chain_id, bid.nonce),
        book.auctions@.contains_key(auction_id),
        book.auctions@[auction_id].status == AuctionStatus::Active,
        now < book.auctions@[auction_id].ends_at,
        attestation_time_check(now, bid.timestamp) is Ok,
        bid.amount >= min_next_bid(book.auctions@[auction_id]),
    ensures
        book.place_bid_check(now, auction_id, bid) == Err::<(), ContractError>(
            ContractError::ReplayAttackDetected,
        ),
{
}

/// A bridge nonce that an accepted bid consumed can never be used again:
/// every later bid carrying it is refused.
pub proof fn lemma_nonce_single_use(
    before: AuctionBook,
    after: AuctionBook,
    accepted: AuctionBid,
    later: AuctionBid,
    now: u64,
    auction_id: u64,
)
    requires
        after.used_nonces@ == before.used_nonces@.push((accepted.chain_id, accepted.nonce)),
        later.chain_id == accepted.chain_id,
        later.nonce == accepted.nonce,
    ensures
        nonce_used(after.used_nonces@, later.chain_id, later.nonce),
        after.place_bid_check(now, auction_id, later) is Err,
{
    assert(after.used_nonces@[after.used_nonces@.len() - 1] == (later.chain_id, later.nonce));
}

/// Settled and cancelled auctions are final: no bid, settlement or
/// cancellation is accepted on them.
pub proof fn lemma_closed_auctions_final(book: AuctionBook, now: u64, auction_id: u64, bid: AuctionBid)
    requires
        book.auctions@.contains_key(auction_id),
        !is_open(book.auctions@[auction_id].status),
    ensures
        book.place_bid_check(now, auction_id, bid) is Err,
        book.settle_check(now, auction_id) is Err,
        book.cancel_check(auction_id) is Err,
{
}

// ── Webhooks ──────────────────────────────────────────────────────────────────

/// Unsubscribing the identifier of a subscription just added, under an
/// identifier no earlier subscription had, restores the subscriptions.
pub proof fn lemma_unsubscribe_undoes_subscribe(subs: Seq<WebhookSubscription>, added: WebhookSubscription)
    requires
        !subscription_ids(subs).contains(added.id@),
    ensures
        first_with_id(subscription_ids(subs.push(added)), added.id@) == subs.len(),
        subs.push(added).remove(subs.len() as int) == subs,
{
    let ids = subscription_ids(subs.push(added));
    assert forall|k: int| 0 <= k < subs.len() implies ids[k] != added.id@ by {
        assert(subscription_ids(subs)[k] == ids[k]);
    }
    lemma_first_index(ids, added.id@, subs.len() as int);
    assert(subs.push(added).remove(subs.len() as int) =~= subs);
}

proof fn lemma_first_index(ids: Seq<Seq<char>>, id: Seq<char>, i: int)
    requires
        0 <= i < ids.len(),
        forall|k: int| 0 <= k < i ==> ids[k] != id,
        ids[i] == id,
    ensures
        first_with_id(ids, id) == i,
    decreases ids.len(),
{
    if i > 0 {
        assert forall|k: int| 0 <= k < i - 1 implies ids.drop_first()[k] != id by {
            assert(ids[k + 1] != id);
        }
        lemma_first_index(ids.drop_first(), id, i - 1);
    }
}

// ── Webhook delivery ──────────────────────────────────────────────────────────

/// An event goes to every active subscription that lists its type and to
/// no other subscription, each once, in subscription order.
pub proof fn lemma_event_reaches_every_subscriber(subs: Seq<WebhookSubscription>, event_type: Seq<char>)
    requires
        subs.len() <= usize::MAX,
    ensures
        forall|i: int|
            0 <= i < subs.len() ==> (recipients(subs, event_type).contains(i as usize) <==> (
            subs[i].active && exists|k: int|
                0 <= k < subs[i].events@.len() && #[trigger] subs[i].events@[k]@ == event_type)),
        forall|k: int|
            0 <= k < recipients(subs, event_type).len() ==> #[trigger] recipients(subs, event_type)[k]
                < subs.len(),
        forall|a: int, b: int|
            0 <= a < b < recipients(subs, event_type).len() ==> recipients(subs, event_type)[a]
                < recipients(subs, event_type)[b],
    decreases subs.len(),
{
    let r = recipients(subs, event_type);
    if subs.len() > 0 {
        let d = subs.drop_last();
        let rd = recipients(d, event_type);
        lemma_event_reaches_every_subscriber(d, event_type);
        let last = (subs.len() - 1) as usize;
        let gets = subs.last().active && exists|k: int|
            0 <= k < subs.last().events@.len() && #[trigger] subs.last().events@[k]@ == event_type;
        assert(gets == (subs.last().active && lists_event(subs.last().events@, event_type)));
        if gets {
            assert(r == rd.push(last));
        } else {
            assert(r == rd);
        }
        assert forall|k: int| 0 <= k < r.len() implies #[trigger] r[k] < subs.len() by {
            if k < rd.len() {
                assert(r[k] == rd[k]);
            }
        }
        assert forall|a: int, b: int| 0 <= a < b < r.len() implies r[a] < r[b] by {
            assert(r[a] == rd[a]);
            if b < rd.len() {
                assert(r[b] == rd[b]);
            }
        }
        assert forall|i: int| 0 <= i < subs.len() implies (r.contains(i as usize) <==> (subs[i].active
            && exists|k: int| 0 <= k < subs[i].events@.len() && #[trigger] subs[i].events@[k]@ == event_type)) by {
            if i < d.len() {
                assert(subs[i] == d[i]);
                if r.contains(i as usize) {
                    let w = choose|w: int| 0 <= w < r.len() && r[w] == i as usize;
                    if w < rd.len() {
                        assert(rd[w] == r[w]);
                    } else {
                        assert(r[w] == last);
                    }
                }
                if rd.contains(i as usize) {
                    let w = choose|w: int| 0 <= w < rd.len() && rd[w] == i as usize;
                    assert(r[w] == rd[w]);
                }
            } else {
                if gets {
                    assert(r[rd.len() as int] == last);
                } else if r.contains(i as usize) {
                    let w = choose|w: int| 0 <= w < r.len() && r[w] == i as usize;
                    assert(rd[w] < d.len());
                }
            }
        }
    }
}

// ── Metrics ───────────────────────────────────────────────────────────────────

/// Adding `a` and then `c` to a gauge leaves the metrics as adding `a + c`
/// at once would.
pub proof fn lemma_gauge_increments_add(
    s0: MetricsStore,
    s1: MetricsStore,
    s2: MetricsStore,
    once: MetricsStore,
    key: GaugeKey,
    a: int,
    c: int,
)
    requires
        gauge_added(s1, s0, key, a),
        gauge_added(s2, s1, key, c),
        gauge_added(once, s0, key, a + c),
    ensures
        s2 == once,
{
    assert(s2.gauge(GaugeKey::TotalStake) == once.gauge(GaugeKey::TotalStake));
    assert(s2.gauge(GaugeKey::TotalYieldDistributed) == once.gauge(GaugeKey::TotalYieldDistributed));
    assert(s2.gauge(GaugeKey::TotalSlashed) == once.gauge(GaugeKey::TotalSlashed));
    assert(s2.gauge(GaugeKey::ContractBalance) == once.gauge(GaugeKey::ContractBalance));
    assert(s2.counter(CounterKey::LoanCount) == once.counter(CounterKey::LoanCount));
    assert(s2.counter(CounterKey::ActiveLoanCount) == once.counter(CounterKey::ActiveLoanCount));
    assert(s2.counter(CounterKey::VouchCount) == once.counter(CounterKey::VouchCount));
}

/// The value line of metric `name`: its TYPE line followed by the name and
/// `value`.
pub open spec fn value_line(name: Seq<char>, value: Seq<char>) -> Seq<char> {
    "# TYPE "@ + name + " gauge\n"@ + name + " "@ + value + "\n"@
}

proof fn lemma_contains_in_left(x: Seq<char>, y: Seq<char>, l: Seq<char>)
    requires
        contains_text(x, l),
    ensures
        contains_text(x + y, l),
{
    let i = choose|i: int| 0 <= i <= x.len() - l.len() && #[trigger] x.subrange(i, i + l.len()) == l;
    assert((x + y).subrange(i, i + l.len()) =~= x.subrange(i, i + l.len()));
}

proof fn lemma_contains_in_right(x: Seq<char>, y: Seq<char>, l: Seq<char>)
    requires
        contains_text(y, l),
    ensures
        contains_text(x + y, l),
{
    let i = choose|i: int| 0 <= i <= y.len() - l.len() && #[trigger] y.subrange(i, i + l.len()) == l;
    assert((x + y).subrange(x.len() + i, x.len() + i + l.len()) =~= y.subrange(i, i + l.len()));
}

proof fn lemma_block_has_value_line(name: Seq<char>, help: Seq<char>, value: Seq<char>)
    ensures
        contains_text(metric_block(name, help, value), value_line(name, value)),
{
    let h = "# HELP "@ + name + " "@ + help + "\n"@;
    let l = value_line(name, value);
    assert(metric_block(name, help, value) =~= h + l);
    assert(l.subrange(0, (0 + l.len()) as int) =~= l);
    assert(contains_text(l, l));
    lemma_contains_in_right(h, l, l);
}

/// The value line of the block at position `k` (from 1) of seven blocks is
/// in their concatenation.
proof fn lemma_line_in_blocks(
    b1: Seq<char>,
    b2: Seq<char>,
    b3: Seq<char>,
    b4: Seq<char>,
    b5: Seq<char>,
    b6: Seq<char>,
    b7: Seq<char>,
    k: int,
    l: Seq<char>,
)
    requires
        1 <= k <= 7,
        contains_text(
            if k == 1 { b1 } else if k == 2 { b2 } else if k == 3 { b3 } else if k == 4 { b4 } else if k == 5 {
                b5
            } else if k == 6 { b6 } else { b7 },
            l,
        ),
    ensures
        contains_text(b1 + b2 + b3 + b4 + b5 + b6 + b7, l),
{
    if k == 1 {
        lemma_contains_in_left(b1, b2, l);
    } else if k == 2 {
        lemma_contains_in_right(b1, b2, l);
    }
    if k <= 2 {
        lemma_contains_in_left(b1 + b2, b3, l);
    } else if k == 3 {
        lemma_contains_in_right(b1 + b2, b3, l);
    }
    if k <= 3 {
        lemma_contains_in_left(b1 + b2 + b3, b4, l);
    } else if k == 4 {
        lemma_contains_in_right(b1 + b2 + b3, b4, l);
    }
    if k <= 4 {
        lemma_contains_in_left(b1 + b2 + b3 + b4, b5, l);
    } else if k == 5 {
        lemma_contains_in_right(b1 + b2 + b3 + b4, b5, l);
    }
    if k <= 5 {
        lemma_contains_in_left(b1 + b2 + b3 + b4 + b5, b6, l);
    } else if k == 6 {
        lemma_contains_in_right(b1 + b2 + b3 + b4 + b5, b6, l);
    }
    if k <= 6 {
        lemma_contains_in_left(b1 + b2 + b3 + b4 + b5 + b6, b7, l);
    } else {
        lemma_contains_in_right(b1 + b2 + b3 + b4 + b5 + b6, b7, l);
    }
}

/// In the Prometheus exposition of a store, each metric's TYPE line is
/// followed by a line with that metric's own value from the store.
pub proof fn lemma_prometheus_lines_carry_own_values(store: MetricsStore)
    ensures
        ({
            let text = prometheus_text(get_metrics_spec(store));
            &&& contains_text(text, value_line(TOTAL_LOANS_NAME@, decimal(store.loan_count as nat)))
            &&& contains_text(text, value_line(ACTIVE_LOANS_NAME@, decimal(store.active_loan_count as nat)))
            &&& contains_text(text, value_line(TOTAL_VOUCHES_NAME@, decimal(store.vouch_count as nat)))
            &&& contains_text(text, value_line(TOTAL_STAKE_NAME@, signed_decimal(store.total_stake as int)))
            &&& contains_text(
                text,
                value_line(TOTAL_YIELD_NAME@, signed_decimal(store.total_yield_distributed as int)),
            )
            &&& contains_text(text, value_line(TOTAL_SLASHED_NAME@, signed_decimal(store.total_slashed as int)))
            &&& contains_text(
                text,
                value_line(CONTRACT_BALANCE_NAME@, signed_decimal(store.contract_balance as int)),
            )
        }),
{
    let v1 = decimal(store.loan_count as nat);
    let v2 = decimal(store.active_loan_count as nat);
    let v3 = decimal(store.vouch_count as nat);
    let v4 = signed_decimal(store.total_stake as int);
    let v5 = signed_decimal(store.total_yield_distributed as int);
    let v6 = signed_decimal(store.total_slashed as int);
    let v7 = signed_decimal(store.contract_balance as int);
    let b1 = metric_block(TOTAL_LOANS_NAME@, TOTAL_LOANS_HELP@, v1);
    let b2 = metric_block(ACTIVE_LOANS_NAME@, ACTIVE_LOANS_HELP@, v2);
    let b3 = metric_block(TOTAL_VOUCHES_NAME@, TOTAL_VOUCHES_HELP@, v3);
    let b4 = metric_block(TOTAL_STAKE_NAME@, TOTAL_STAKE_HELP@, v4);
    let b5 = metric_block(TOTAL_YIELD_NAME@, TOTAL_YIELD_HELP@, v5);
    let b6 = metric_block(TOTAL_SLASHED_NAME@, TOTAL_SLASHED_HELP@, v6);
    let b7 = metric_block(CONTRACT_BALANCE_NAME@, CONTRACT_BALANCE_HELP@, v7);
    assert(prometheus_text(get_metrics_spec(store)) == b1 + b2 + b3 + b4 + b5 + b6 + b7);
    lemma_block_has_value_line(TOTAL_LOANS_NAME@, TOTAL_LOANS_HELP@, v1);
    lemma_block_has_value_line(ACTIVE_LOANS_NAME@, ACTIVE_LOANS_HELP@, v2);
    lemma_block_has_value_line(TOTAL_VOUCHES_NAME@, TOTAL_VOUCHES_HELP@, v3);
    lemma_block_has_value_line(TOTAL_STAKE_NAME@, TOTAL_STAKE_HELP@, v4);
    lemma_block_has_value_line(TOTAL_YIELD_NAME@, TOTAL_YIELD_HELP@, v5);
    lemma_block_has_value_line(TOTAL_SLASHED_NAME@, TOTAL_SLASHED_HELP@, v6);
    lemma_block_has_value_line(CONTRACT_BALANCE_NAME@, CONTRACT_BALANCE_HELP@, v7);
    lemma_line_in_blocks(b1, b2, b3, b4, b5, b6, b7, 1, value_line(TOTAL_LOANS_NAME@, v1));
    lemma_line_in_blocks(b1, b2, b3, b4, b5, b6, b7, 2, value_line(ACTIVE_LOANS_NAME@, v2));
    lemma_line_in_blocks(b1, b2, b3, b4, b5, b6, b7, 3, value_line(TOTAL_VOUCHES_NAME@, v3));
    lemma_line_in_blocks(b1, b2, b3, b4, b5, b6, b7, 4, value_line(TOTAL_STAKE_NAME@, v4));
    lemma_line_in_blocks(b1, b2, b3, b4, b5, b6, b7, 5, value_line(TOTAL_YIELD_NAME@, v5));
    lemma_line_in_blocks(b1, b2, b3, b4, b5, b6, b7, 6, value_line(TOTAL_SLASHED_NAME@, v6));
    lemma_line_in_blocks(b1, b2, b3, b4, b5, b6, b7, 7, value_line(CONTRACT_BALANCE_NAME@, v7));
}

// ── Decimal text ──────────────────────────────────────────────────────────────

/// The number that a sequence of decimal digits denotes.
pub open spec fn digits_value(s: Seq<char>) -> int
    decreases s.len(),
{
    if s.len() == 0 {
        0
    } else {
        digits_value(s.drop_last()) * 10 + digit_value(s.last())
    }
}

/// The value of the decimal digit `c`.
pub open spec fn digit_value(c: char) -> int {
    if c == '0' {
        0
    } else if c == '1' {
        1
    } else if c == '2' {
        2
    } else if c == '3' {
        3
    } else if c == '4' {
        4
    } else if c == '5' {
        5
    } else if c == '6' {
        6
    } else if c == '7' {
        7
    } else if c == '8' {
        8
    } else {
        9
    }
}

/// The decimal text of every natural number reads back as that number and
/// starts with a non-zero digit unless the number is 0.
pub proof fn lemma_decimal_round_trip(n: nat)
    ensures
        digits_value(decimal(n)) == n,
        decimal(n).len() >= 1,
        n > 0 ==> decimal(n)[0] != '0',
    decreases n,
{
    if n >= 10 {
        lemma_decimal_round_trip(n / 10);
        assert(decimal(n).drop_last() =~= decimal(n / 10));
        assert(decimal(n).last() == digit_char((n % 10) as int));
        assert(digit_value(digit_char((n % 10) as int)) == n % 10);
        assert(decimal(n)[0] == decimal(n / 10)[0]);
        assert(digits_value(decimal(n)) == digits_value(decimal(n / 10)) * 10 + n % 10);
        assert((n / 10) * 10 + n % 10 == n);
    } else {
        assert(decimal(n).drop_last() =~= Seq::<char>::empty());
        assert(digit_value(digit_char(n as int)) == n);
        assert(digits_value(decimal(n)) == digits_value(Seq::<char>::empty()) * 10 + digit_value(
            decimal(n).last(),
        ));
    }
}

} // verus!
