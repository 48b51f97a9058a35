//! Loan requests, repayments and restructuring.

use vstd::prelude::*;

use crate::contract::{transfer, loan_wf, ContractEvent, Effect, QuorumCreditContract};
use crate::errors::ContractError;
use crate::helpers::{config, has_active_loan, require_allowed_token, require_not_paused, token_allowed};
use crate::stake::{
    lemma_stake_le_token_stake, lemma_sums_nonneg, lemma_take_step, lemma_total_prefix, sector_stake,
    sectors_diversified, stakes_bounded, token_stake, total_staked, MAX_BORROWER_STAKE,
};
use crate::types::{
    AccountId, Config, LoanRecord, LoanStatus, RestructureRequest, VouchRecord, BPS_DENOMINATOR,
};

verus! {

broadcast use vstd::std_specs::hash::group_hash_axioms;

// ── Stake sums ────────────────────────────────────────────────────────────────

/// Total stake in `vs` denominated in `token`.
pub fn sum_token_stake(vs: &Vec<VouchRecord>, token: AccountId) -> (total: i128)
    requires
        stakes_bounded(vs@),
    ensures
        total == token_stake(vs@, token),
{
    let n = vs.len();
    let mut total: i128 = 0;
    for i in 0..n
        invariant
            n == vs@.len(),
            stakes_bounded(vs@),
            total == token_stake(vs@.take(i as int), token),
    {
        proof {
            lemma_take_step(vs@, i as int);
            lemma_total_prefix(vs@, i + 1);
            lemma_sums_nonneg(vs@.take(i + 1), token, Seq::empty());
        }
        if vs[i].token == token {
            total = total + vs[i].stake;
        }
    }
    proof {
        assert(vs@.take(n as int) =~= vs@);
    }
    total
}

/// Total stake in `vs`, whatever the token.
pub fn sum_all_stake(vs: &Vec<VouchRecord>) -> (total: i128)
    requires
        stakes_bounded(vs@),
    ensures
        total == total_staked(vs@),
{
    let n = vs.len();
    let mut total: i128 = 0;
    for i in 0..n
        invariant
            n == vs@.len(),
            stakes_bounded(vs@),
            total == total_staked(vs@.take(i as int)),
    {
        proof {
            lemma_take_step(vs@, i as int);
            lemma_total_prefix(vs@, i + 1);
        }
        total = total + vs[i].stake;
    }
    proof {
        assert(vs@.take(n as int) =~= vs@);
    }
    total
}

/// Total stake in `vs` denominated in `token` and labelled `sector`.
pub fn sum_sector_stake(vs: &Vec<VouchRecord>, token: AccountId, sector: &String) -> (total: i128)
    requires
        stakes_bounded(vs@),
    ensures
        total == sector_stake(vs@, token, sector@),
{
    let n = vs.len();
    let mut total: i128 = 0;
    for i in 0..n
        invariant
            n == vs@.len(),
            stakes_bounded(vs@),
            total == sector_stake(vs@.take(i as int), token, sector@),
    {
        proof {
            lemma_take_step(vs@, i as int);
            lemma_total_prefix(vs@, i + 1);
            lemma_sums_nonneg(vs@.take(i + 1), token, sector@);
        }
        if vs[i].token == token && vs[i].sector == *sector {
            total = total + vs[i].stake;
        }
    }
    proof {
        assert(vs@.take(n as int) =~= vs@);
    }
    total
}

/// Whether no sector contributes more than half of `total`, the stake in `token`.
fn sectors_within_limit(vs: &Vec<VouchRecord>, token: AccountId, total: i128) -> (ok: bool)
    requires
        stakes_bounded(vs@),
        total == token_stake(vs@, token),
    ensures
        ok == sectors_diversified(vs@, token),
{
    let n = vs.len();
    for i in 0..n
        invariant
            n == vs@.len(),
            stakes_bounded(vs@),
            total == token_stake(vs@, token),
            forall|k: int|
                0 <= k < i && vs@[k].token == token ==> 2 * sector_stake(
                    vs@,
                    token,
                    #[trigger] vs@[k].sector@,
                ) <= total,
    {
        if vs[i].token == token {
            let s = sum_sector_stake(vs, token, &vs[i].sector);
            proof {
                lemma_sums_nonneg(vs@, token, vs@[i as int].sector@);
            }
            if s * 2 > total {
                return false;
            }
        }
    }
    true
}

/// `purpose` may be requested: the whitelist is empty or holds it.
pub open spec fn purpose_allowed(cfg: Config, purpose: Seq<char>) -> bool {
    cfg.allowed_purposes@.len() == 0 || exists|i: int|
        0 <= i < cfg.allowed_purposes@.len() && #[trigger] cfg.allowed_purposes@[i]@ == purpose
}

fn purpose_is_allowed(cfg: &Config, purpose: &String) -> (ok: bool)
    ensures
        ok == purpose_allowed(*cfg, purpose@),
{
    let n = cfg.allowed_purposes.len();
    if n == 0 {
        return true;
    }
    for i in 0..n
        invariant
            n == cfg.allowed_purposes@.len(),
            forall|k: int| 0 <= k < i ==> #[trigger] cfg.allowed_purposes@[k]@ != purpose@,
    {
        if cfg.allowed_purposes[i] == *purpose {
            return true;
        }
    }
    false
}

// ── Loan requests ─────────────────────────────────────────────────────────────

impl QuorumCreditContract {
    /// The outcome of the checks of `request_loan`, in the order they are made.
    pub open spec fn request_loan_check(
        &self,
        borrower: AccountId,
        amount: i128,
        threshold: i128,
        purpose: Seq<char>,
        token: AccountId,
    ) -> Result<(), ContractError> {
        let cfg = self.config->0;
        let vs = self.vouches_of(borrower);
        let total = token_stake(vs, token);
        if self.paused {
            Err(ContractError::ContractPaused)
        } else if self.has_active(borrower) {
            Err(ContractError::ActiveLoanExists)
        } else if !token_allowed(cfg, token) {
            Err(ContractError::InvalidToken)
        } else if amount < cfg.min_loan_amount {
            Err(ContractError::LoanBelowMinAmount)
        } else if total < threshold {
            Err(ContractError::InsufficientFunds)
        } else if !purpose_allowed(cfg, purpose) {
            Err(ContractError::LoanPurposeNotAllowed)
        } else if total > 0 && !sectors_diversified(vs, token) {
            Err(ContractError::SectorConcentrationTooHigh)
        } else {
            Ok(())
        }
    }

    /// Insurance premium charged on a loan of `amount`.
    pub open spec fn premium_of(&self, amount: i128) -> int {
        let bps = self.config->0.insurance_premium_bps;
        if bps > 0 {
            amount * bps / BPS_DENOMINATOR as int
        } else {
            0
        }
    }

    /// The arithmetic of a granted request of `amount` at `now` stays within
    /// the machine integers.
    pub open spec fn request_loan_in_range(&self, amount: i128, now: u64) -> bool {
        let cfg = self.config->0;
        &&& self.loan_counter < u64::MAX
        &&& i128::MIN <= amount * cfg.yield_bps <= i128::MAX
        &&& amount + amount * cfg.yield_bps / BPS_DENOMINATOR as int <= i128::MAX
        &&& now + cfg.loan_duration <= u64::MAX
        &&& i128::MIN <= amount * cfg.insurance_premium_bps <= i128::MAX
        &&& self.insurance_pool + self.premium_of(amount) <= i128::MAX
    }

    /// What a granted request asks the host to do: collect the premium,
    /// disburse the loan and announce it.
    pub open spec fn disbursement_effects(&self, borrower: AccountId, amount: i128, token: AccountId) -> Seq<Effect> {
        let p = self.premium_of(amount);
        (if p > 0 {
            seq![transfer(token, borrower, self.address, p)]
        } else {
            Seq::empty()
        }) + seq![
            transfer(token, self.address, borrower, amount as int),
            Effect::Event(ContractEvent::LoanCreated { borrower, amount }),
        ]
    }

    /// `l` is the record of a loan created at `now` with id `id`.
    pub open spec fn is_new_loan(
        &self,
        l: LoanRecord,
        id: u64,
        borrower: AccountId,
        amount: i128,
        purpose: Seq<char>,
        token: AccountId,
        now: u64,
    ) -> bool {
        let cfg = self.config->0;
        &&& l.id == id
        &&& l.borrower == borrower
        &&& l.co_borrowers@.len() == 0
        &&& l.amount == amount
        &&& l.amount_repaid == 0
        &&& l.total_yield == amount * cfg.yield_bps / BPS_DENOMINATOR as int
        &&& l.status == LoanStatus::Active
        &&& l.created_at == now
        &&& l.disbursement_timestamp == now
        &&& l.repayment_timestamp is None
        &&& l.deadline == now + cfg.loan_duration
        &&& l.loan_purpose@ == purpose
        &&& l.token_address == token
        &&& l.amortization_schedule@.len() == 0
        &&& !l.reminder_sent
        &&& l.risk_score == 0
    }

    /// Makes the checks of `request_loan`, in its order, without changing
    /// anything.
    pub fn check_loan_request(
        &self,
        borrower: AccountId,
        amount: i128,
        threshold: i128,
        loan_purpose: &String,
        token_addr: AccountId,
    ) -> (r: Result<(), ContractError>)
        requires
            self.wf(),
            !self.paused ==> self.config is Some,
        ensures
            r == self.request_loan_check(borrower, amount, threshold, loan_purpose@, token_addr),
    {
        require_not_paused(self)?;
        if has_active_loan(self, borrower) {
            return Err(ContractError::ActiveLoanExists);
        }
        let token = require_allowed_token(self, token_addr)?;
        let cfg = config(self);
        if amount < cfg.min_loan_amount {
            return Err(ContractError::LoanBelowMinAmount);
        }
        let empty: Vec<VouchRecord> = Vec::new();
        let vouches: &Vec<VouchRecord> = match self.vouches.get(&borrower.0) {
            Some(v) => v,
            None => &empty,
        };
        assert(vouches@ == self.vouches_of(borrower));
        assert(stakes_bounded(vouches@));
        let total_stake = sum_token_stake(vouches, token);
        if total_stake < threshold {
            return Err(ContractError::InsufficientFunds);
        }
        if !purpose_is_allowed(cfg, loan_purpose) {
            return Err(ContractError::LoanPurposeNotAllowed);
        }
        if total_stake > 0 && !sectors_within_limit(vouches, token, total_stake) {
            return Err(ContractError::SectorConcentrationTooHigh);
        }
        Ok(())
    }

    /// Requests a loan of `amount` of `token_addr` at ledger time `now`.
    ///
    /// The borrower must hold no active loan, the token must be allowed, the
    /// amount must reach the configured minimum, the borrower's stake in the
    /// token must reach `threshold`, the purpose must be whitelisted (when a
    /// whitelist is set) and no sector may back more than half of the stake.
    /// A granted loan gets the next loan id, owes the configured yield, is due
    /// after the configured duration, pays the insurance premium into the
    /// pool, and is disbursed to the borrower.
    pub fn request_loan(
        &mut self,
        now: u64,
        borrower: AccountId,
        amount: i128,
        threshold: i128,
        loan_purpose: String,
        token_addr: AccountId,
    ) -> (r: Result<(), ContractError>)
        requires
            old(self).wf(),
            old(self).config is Some,
            old(self).request_loan_check(borrower, amount, threshold, loan_purpose@, token_addr)
                is Ok ==> old(self).request_loan_in_range(amount, now),
        ensures
            final(self).wf(),
            r == old(self).request_loan_check(borrower, amount, threshold, loan_purpose@, token_addr),
            r is Err ==> *final(self) == *old(self),
            r is Ok ==> {
                let id = (old(self).loan_counter + 1) as u64;
                &&& final(self).loan_counter == id
                &&& !old(self).loans@.contains_key(id)
                &&& final(self).loans@.contains_key(id)
                &&& old(self).is_new_loan(
                    final(self).loans@[id],
                    id,
                    borrower,
                    amount,
                    loan_purpose@,
                    token_addr,
                    now,
                )
                &&& final(self).loans@.remove(id) == old(self).loans@
                &&& final(self).active_loans@ == old(self).active_loans@.insert(borrower.0, id)
                &&& final(self).insurance_pool == old(self).insurance_pool + old(self).premium_of(amount)
                &&& final(self).outbox@ == old(self).outbox@ + old(self).disbursement_effects(
                    borrower,
                    amount,
                    token_addr,
                )
                &&& final(self).vouches@ == old(self).vouches@
                &&& final(self).withdrawal_queues@ == old(self).withdrawal_queues@
                &&& final(self).restructure_requests@ == old(self).restructure_requests@
                &&& final(self).config == old(self).config
                &&& final(self).deployer == old(self).deployer
                &&& final(self).address == old(self).address
                &&& final(self).paused == old(self).paused
                &&& final(self).locked == old(self).locked
            },
    {
        self.check_loan_request(borrower, amount, threshold, &loan_purpose, token_addr)?;
        let cfg = config(self);
        let yield_bps = cfg.yield_bps;
        let loan_duration = cfg.loan_duration;
        let premium_bps = cfg.insurance_premium_bps;

        let loan_id = self.loan_counter + 1;
        assert(!self.loans@.contains_key(loan_id)) by {
            if self.loans@.contains_key(loan_id) {
                assert(loan_wf(self.loans@[loan_id], loan_id, self.loan_counter));
            }
        }
        self.loan_counter = loan_id;
        assert(amount * yield_bps >= 0) by (nonlinear_arith)
            requires
                amount > 0,
                yield_bps >= 0,
        ;
        let total_yield = amount * yield_bps / 10_000;
        assert(amount + total_yield <= i128::MAX && total_yield <= amount) by (nonlinear_arith)
            requires
                amount > 0,
                0 <= yield_bps <= 10_000,
                amount * yield_bps <= i128::MAX,
                amount + amount * yield_bps / 10_000 <= i128::MAX,
                total_yield == amount * yield_bps / 10_000,
        ;
        let loan = LoanRecord {
            id: loan_id,
            borrower,
            co_borrowers: Vec::new(),
            amount,
            amount_repaid: 0,
            total_yield,
            status: LoanStatus::Active,
            created_at: now,
            disbursement_timestamp: now,
            repayment_timestamp: None,
            deadline: now + loan_duration,
            loan_purpose,
            token_address: token_addr,
            amortization_schedule: Vec::new(),
            reminder_sent: false,
            risk_score: 0,
        };
        self.loans.insert(loan_id, loan);
        self.active_loans.insert(borrower.0, loan_id);

        let ghost before_effects = self.outbox@;
        if premium_bps > 0 {
            assert(amount * premium_bps >= 0) by (nonlinear_arith)
                requires
                    amount > 0,
                    premium_bps >= 0,
            ;
            let premium = amount * premium_bps / 10_000;
            if premium > 0 {
                self.outbox.push(
                    Effect::Transfer { token: token_addr, from: borrower, to: self.address, amount: premium },
                );
                self.insurance_pool = self.insurance_pool + premium;
            }
        }
        self.outbox.push(
            Effect::Transfer { token: token_addr, from: self.address, to: borrower, amount },
        );
        self.outbox.push(Effect::Event(ContractEvent::LoanCreated { borrower, amount }));
        proof {
            assert(self.outbox@ =~= old(self).outbox@ + old(self).disbursement_effects(
                borrower,
                amount,
                token_addr,
            ));
            assert(self.loans@.remove(loan_id) =~= old(self).loans@);
            assert forall|id: u64| #[trigger] self.loans@.contains_key(id) implies loan_wf(
                self.loans@[id],
                id,
                self.loan_counter,
            ) by {
                if id != loan_id {
                    assert(old(self).loans@.contains_key(id));
                }
            }
        }
        Ok(())
    }
}

// ── Repayment ─────────────────────────────────────────────────────────────────

/// A voucher's share of `total_yield`, in proportion to `stake` out of `total`.
pub open spec fn yield_share(total_yield: int, stake: int, total: int) -> int {
    if total > 0 {
        total_yield * stake / total
    } else {
        0
    }
}

/// The transfers that return every stake in `token` together with its yield
/// share, in the order of `vs`.
pub open spec fn payout_effects(
    vs: Seq<VouchRecord>,
    token: AccountId,
    total_yield: int,
    total: int,
    from: AccountId,
) -> Seq<Effect>
    decreases vs.len(),
{
    if vs.len() == 0 {
        Seq::empty()
    } else {
        payout_effects(vs.drop_last(), token, total_yield, total, from) + (if vs.last().token
            == token {
            seq![
                transfer(
                    token,
                    from,
                    vs.last().voucher,
                    vs.last().stake + yield_share(total_yield, vs.last().stake as int, total),
                ),
            ]
        } else {
            Seq::empty()
        })
    }
}

/// Queues the payout transfers of `vs` onto `outbox`.
fn push_payouts(
    outbox: &mut Vec<Effect>,
    vs: &Vec<VouchRecord>,
    token: AccountId,
    total_yield: i128,
    total: i128,
    from: AccountId,
)
    requires
        stakes_bounded(vs@),
        total == token_stake(vs@, token),
        0 <= total_yield <= MAX_BORROWER_STAKE,
        forall|i: int|
            0 <= i < vs@.len() && vs@[i].token == token ==> total_yield * #[trigger] vs@[i].stake
                <= i128::MAX,
    ensures
        final(outbox)@ == old(outbox)@ + payout_effects(vs@, token, total_yield as int, total as int, from),
{
    let n = vs.len();
    for i in 0..n
        invariant
            n == vs@.len(),
            stakes_bounded(vs@),
            total == token_stake(vs@, token),
            0 <= total_yield <= MAX_BORROWER_STAKE,
            forall|i: int|
                0 <= i < vs@.len() && vs@[i].token == token ==> total_yield * #[trigger] vs@[i].stake
                    <= i128::MAX,
            outbox@ == old(outbox)@ + payout_effects(
                vs@.take(i as int),
                token,
                total_yield as int,
                total as int,
                from,
            ),
    {
        proof {
            lemma_take_step(vs@, i as int);
        }
        if vs[i].token == token {
            let stake = vs[i].stake;
            proof {
                lemma_stake_le_token_stake(vs@, token, i as int);
                lemma_sums_nonneg(vs@, token, Seq::empty());
                assert(vs@[i as int].stake > 0);
            }
            let share = if total > 0 {
                assert(total_yield * stake >= 0) by (nonlinear_arith)
                    requires
                        total_yield >= 0,
                        stake > 0,
                ;
                assert(total_yield * stake / (total as int) <= total_yield) by (nonlinear_arith)
                    requires
                        total_yield >= 0,
                        0 < stake <= total,
                ;
                total_yield * stake / total
            } else {
                0
            };
            outbox.push(Effect::Transfer { token, from, to: vs[i].voucher, amount: stake + share });
        }
        assert(outbox@ =~= old(outbox)@ + payout_effects(
            vs@.take(i + 1),
            token,
            total_yield as int,
            total as int,
            from,
        ));
    }
    assert(vs@.take(n as int) =~= vs@);
}

/// `new` is `old` after a payment of `payment` at `now`, which settled the
/// loan exactly when `settled`.
pub open spec fn is_paid_record(new: LoanRecord, old: LoanRecord, payment: i128, now: u64, settled: bool) -> bool {
    &&& new.amount_repaid == old.amount_repaid + payment
    &&& new.status == (if settled {
        LoanStatus::Repaid
    } else {
        old.status
    })
    &&& new.repayment_timestamp == (if settled {
        Some(now)
    } else {
        old.repayment_timestamp
    })
    &&& new.id == old.id
    &&& new.borrower == old.borrower
    &&& new.co_borrowers == old.co_borrowers
    &&& new.amount == old.amount
    &&& new.total_yield == old.total_yield
    &&& new.created_at == old.created_at
    &&& new.disbursement_timestamp == old.disbursement_timestamp
    &&& new.deadline == old.deadline
    &&& new.loan_purpose == old.loan_purpose
    &&& new.token_address == old.token_address
    &&& new.amortization_schedule == old.amortization_schedule
    &&& new.reminder_sent == old.reminder_sent
    &&& new.risk_score == old.risk_score
}

impl QuorumCreditContract {
    /// The outcome of the checks of `repay`, in the order they are made.
    pub open spec fn repay_check(&self, borrower: AccountId, payment: i128) -> Result<(), ContractError> {
        if self.paused {
            Err(ContractError::ContractPaused)
        } else {
            match self.active_record(borrower) {
                None => Err(ContractError::NoActiveLoan),
                Some(l) => if payment <= 0 {
                    Err(ContractError::InvalidAmount)
                } else if payment > l.amount + l.total_yield - l.amount_repaid {
                    Err(ContractError::InvalidAmount)
                } else if !token_allowed(self.config->0, l.token_address) {
                    Err(ContractError::InvalidToken)
                } else {
                    Ok(())
                },
            }
        }
    }

    /// A payment of `payment` settles `borrower`'s loan.
    pub open spec fn repay_settles(&self, borrower: AccountId, payment: i128) -> bool {
        let l = self.active_record(borrower)->0;
        l.amount_repaid + payment >= l.amount + l.total_yield
    }

    /// The yield shares of a settling repayment stay within the machine integers.
    pub open spec fn repay_in_range(&self, borrower: AccountId, payment: i128) -> bool {
        let l = self.active_record(borrower)->0;
        let vs = self.vouches_of(borrower);
        self.repay_settles(borrower, payment) ==> forall|i: int|
            0 <= i < vs.len() && vs[i].token == l.token_address ==> l.total_yield
                * #[trigger] vs[i].stake <= i128::MAX
    }

    /// Pays `payment` towards `borrower`'s loan at ledger time `now`.
    ///
    /// The payment must be positive and at most what is still owed.  When it
    /// settles the loan, the loan is marked repaid, every voucher in the
    /// loan's token gets back the stake together with a share of the yield
    /// proportional to the stake, queued withdrawals are cleared, and the
    /// borrower's active loan and vouches are removed.
    pub fn repay(&mut self, now: u64, borrower: AccountId, payment: i128) -> (r: Result<(), ContractError>)
        requires
            old(self).wf(),
            old(self).repay_check(borrower, payment) is Ok ==> old(self).repay_in_range(
                borrower,
                payment,
            ),
        ensures
            final(self).wf(),
            r == old(self).repay_check(borrower, payment),
            r is Err ==> *final(self) == *old(self),
            r is Ok ==> {
                let id = old(self).active_loans@[borrower.0];
                let l = old(self).loans@[id];
                let settled = old(self).repay_settles(borrower, payment);
                let vs = old(self).vouches_of(borrower);
                let paid = seq![transfer(l.token_address, borrower, old(self).address, payment as int)];
                &&& final(self).loans@.contains_key(id)
                &&& is_paid_record(final(self).loans@[id], l, payment, now, settled)
                &&& final(self).loans@.remove(id) == old(self).loans@.remove(id)
                &&& settled ==> {
                    &&& final(self).active_loans@ == old(self).active_loans@.remove(borrower.0)
                    &&& final(self).vouches@ == old(self).vouches@.remove(borrower.0)
                    &&& final(self).withdrawal_queues@ == old(self).withdrawal_queues@.remove(
                        borrower.0,
                    )
                    &&& final(self).outbox@ == old(self).outbox@ + paid + payout_effects(
                        vs,
                        l.token_address,
                        l.total_yield as int,
                        token_stake(vs, l.token_address),
                        old(self).address,
                    ) + seq![
                        Effect::Event(ContractEvent::LoanRepaid { borrower, amount: l.amount }),
                    ]
                }
                &&& !settled ==> {
                    &&& final(self).active_loans@ == old(self).active_loans@
                    &&& final(self).vouches@ == old(self).vouches@
                    &&& final(self).withdrawal_queues@ == old(self).withdrawal_queues@
                    &&& final(self).outbox@ == old(self).outbox@ + paid
                }
                &&& final(self).loan_counter == old(self).loan_counter
                &&& final(self).restructure_requests@ == old(self).restructure_requests@
                &&& final(self).insurance_pool == old(self).insurance_pool
                &&& final(self).config == old(self).config
                &&& final(self).deployer == old(self).deployer
                &&& final(self).address == old(self).address
                &&& final(self).paused == old(self).paused
                &&& final(self).locked == old(self).locked
            },
    {
        require_not_paused(self)?;
        let loan_id = match self.active_loans.get(&borrower.0) {
            Some(id) => *id,
            None => return Err(ContractError::NoActiveLoan),
        };
        let (owed, outstanding, token_addr) = match self.loans.get(&loan_id) {
            Some(loan) => {
                assert(loan_wf(*loan, loan_id, self.loan_counter));
                (
                    loan.amount + loan.total_yield,
                    loan.amount + loan.total_yield - loan.amount_repaid,
                    loan.token_address,
                )
            },
            None => return Err(ContractError::NoActiveLoan),
        };
        if payment <= 0 {
            return Err(ContractError::InvalidAmount);
        }
        if payment > outstanding {
            return Err(ContractError::InvalidAmount);
        }
        let token = require_allowed_token(self, token_addr)?;
        let contract = self.address;
        self.outbox.push(Effect::Transfer { token, from: borrower, to: contract, amount: payment });
        let ghost after_payment = self.outbox@;

        let mut loan = self.loans.remove(&loan_id).unwrap();
        loan.amount_repaid = loan.amount_repaid + payment;
        if loan.amount_repaid >= owed {
            loan.status = LoanStatus::Repaid;
            loan.repayment_timestamp = Some(now);
            let empty: Vec<VouchRecord> = Vec::new();
            let vouches: &Vec<VouchRecord> = match self.vouches.get(&borrower.0) {
                Some(v) => v,
                None => &empty,
            };
            assert(vouches@ == old(self).vouches_of(borrower));
            let total_stake = sum_token_stake(vouches, token);
            push_payouts(&mut self.outbox, vouches, token, loan.total_yield, total_stake, contract);
            self.withdrawal_queues.remove(&borrower.0);
            self.active_loans.remove(&borrower.0);
            self.vouches.remove(&borrower.0);
            self.outbox.push(
                Effect::Event(ContractEvent::LoanRepaid { borrower, amount: loan.amount }),
            );
        }
        self.loans.insert(loan_id, loan);
        proof {
            assert(self.loans@.remove(loan_id) =~= old(self).loans@.remove(loan_id));
            assert forall|id: u64| #[trigger] self.loans@.contains_key(id) implies loan_wf(
                self.loans@[id],
                id,
                self.loan_counter,
            ) by {
                if id != loan_id {
                    assert(old(self).loans@.contains_key(id));
                }
            }
        }
        Ok(())
    }
}

// ── Restructuring ─────────────────────────────────────────────────────────────

/// Every voucher in `vs` is among `approvals`.
pub open spec fn approvals_complete(vs: Seq<VouchRecord>, approvals: Seq<AccountId>) -> bool {
    forall|i: int| 0 <= i < vs.len() ==> approvals.contains(#[trigger] vs[i].voucher)
}

/// Some vouch in `vs` is by `voucher`.
pub open spec fn vouched_by(vs: Seq<VouchRecord>, voucher: AccountId) -> bool {
    exists|i: int| 0 <= i < vs.len() && #[trigger] vs[i].voucher == voucher
}

/// What is still owed on `l`: principal and yield, less what was repaid.
pub open spec fn outstanding_of(l: LoanRecord) -> int {
    l.amount + l.total_yield - l.amount_repaid
}

/// The part of what is owed on `l` that a restructure to `new_amount`
/// forgives: everything above `new_amount`, when `new_amount` is positive
/// and below what is owed; nothing otherwise.
pub open spec fn restructure_forgiven(l: LoanRecord, new_amount: i128) -> int {
    if new_amount > 0 && outstanding_of(l) > new_amount {
        outstanding_of(l) - new_amount
    } else {
        0
    }
}

/// The yield that remains after restructuring `l` to `new_amount`: the
/// forgiven part is taken off the yield first.
pub open spec fn restructured_yield(l: LoanRecord, new_amount: i128) -> int {
    let forgiven = restructure_forgiven(l, new_amount);
    if forgiven <= l.total_yield {
        l.total_yield - forgiven
    } else {
        0
    }
}

/// The principal that remains after restructuring `l` to `new_amount`: what
/// the yield cannot absorb of the forgiven part is taken off the principal.
pub open spec fn restructured_amount(l: LoanRecord, new_amount: i128) -> int {
    let forgiven = restructure_forgiven(l, new_amount);
    if forgiven <= l.total_yield {
        l.amount as int
    } else {
        l.amount - (forgiven - l.total_yield)
    }
}

/// `new` is `old` with the deadline, yield and principal of a restructure.
pub open spec fn is_restructured_record(new: LoanRecord, old: LoanRecord, deadline: u64, new_amount: i128) -> bool {
    &&& new.deadline == deadline
    &&& new.total_yield == restructured_yield(old, new_amount)
    &&& new.amount == restructured_amount(old, new_amount)
    &&& new.id == old.id
    &&& new.borrower == old.borrower
    &&& new.co_borrowers == old.co_borrowers
    &&& new.amount_repaid == old.amount_repaid
    &&& new.status == old.status
    &&& new.created_at == old.created_at
    &&& new.disbursement_timestamp == old.disbursement_timestamp
    &&& new.repayment_timestamp == old.repayment_timestamp
    &&& new.loan_purpose == old.loan_purpose
    &&& new.token_address == old.token_address
    &&& new.amortization_schedule == old.amortization_schedule
    &&& new.reminder_sent == old.reminder_sent
    &&& new.risk_score == old.risk_score
}

/// Whether every vouch in `vs` is by `voucher` or by someone in `approvals`.
fn all_vouchers_approved(vs: &Vec<VouchRecord>, approvals: &Vec<AccountId>, voucher: AccountId) -> (ok: bool)
    ensures
        ok == approvals_complete(vs@, approvals@.push(voucher)),
{
    let n = vs.len();
    for i in 0..n
        invariant
            n == vs@.len(),
            forall|k: int| 0 <= k < i ==> approvals@.push(voucher).contains(#[trigger] vs@[k].voucher),
    {
        let v = vs[i].voucher;
        let mut found = v == voucher;
        if found {
            assert(approvals@.push(voucher)[approvals@.len() as int] == v);
        }
        let m = approvals.len();
        for j in 0..m
            invariant
                m == approvals@.len(),
                v == vs@[i as int].voucher,
                found ==> approvals@.push(voucher).contains(v),
                !found ==> v != voucher && forall|jj: int| 0 <= jj < j ==> approvals@[jj] != v,
        {
            if approvals[j] == v {
                assert(approvals@.push(voucher)[j as int] == v);
                found = true;
            }
        }
        if !found {
            assert(!approvals@.push(voucher).contains(vs@[i as int].voucher)) by {
                if approvals@.push(voucher).contains(v) {
                    let w = choose|w: int|
                        0 <= w < approvals@.push(voucher).len() && approvals@.push(voucher)[w]
                            == v;
                    if w < approvals@.len() {
                        assert(approvals@[w] == v);
                    }
                }
            }
            return false;
        }
    }
    true
}

/// Whether some vouch in `vs` is by `voucher`.
pub fn has_vouch_by(vs: &Vec<VouchRecord>, voucher: AccountId) -> (found: bool)
    ensures
        found == vouched_by(vs@, voucher),
{
    let n = vs.len();
    for i in 0..n
        invariant
            n == vs@.len(),
            forall|k: int| 0 <= k < i ==> #[trigger] vs@[k].voucher != voucher,
    {
        if vs[i].voucher == voucher {
            return true;
        }
    }
    false
}

fn contains_account(s: &Vec<AccountId>, a: AccountId) -> (found: bool)
    ensures
        found == s@.contains(a),
{
    let n = s.len();
    for i in 0..n
        invariant
            n == s@.len(),
            forall|k: int| 0 <= k < i ==> s@[k] != a,
    {
        if s[i] == a {
            assert(s@[i as int] == a);
            return true;
        }
    }
    false
}

impl QuorumCreditContract {
    /// The outcome of the checks of `restructure_loan`, in the order they are made.
    pub open spec fn restructure_check(
        &self,
        borrower: AccountId,
        new_deadline: u64,
        new_amount: i128,
    ) -> Result<(), ContractError> {
        if self.paused {
            Err(ContractError::ContractPaused)
        } else {
            match self.active_record(borrower) {
                None => Err(ContractError::NoActiveLoan),
                Some(l) => if new_deadline <= l.deadline {
                    Err(ContractError::InvalidAmount)
                } else if new_amount != 0 && (new_amount <= 0 || new_amount > l.amount
                    + l.total_yield - l.amount_repaid) {
                    Err(ContractError::InvalidAmount)
                } else if self.restructure_requests@.contains_key(borrower.0) {
                    Err(ContractError::RestructureAlreadyPending)
                } else {
                    Ok(())
                },
            }
        }
    }

    /// Asks the vouchers to approve extending `borrower`'s deadline to
    /// `new_deadline` and, when `new_amount` is not 0, reducing what is still
    /// outstanding to `new_amount`.  The request takes effect once every
    /// voucher approved it (see `approve_restructure`); a request to a
    /// positive amount no longer below what is owed by then leaves what is
    /// owed as it is.
    pub fn restructure_loan(
        &mut self,
        now: u64,
        borrower: AccountId,
        new_deadline: u64,
        new_amount: i128,
    ) -> (r: Result<(), ContractError>)
        requires
            old(self).wf(),
        ensures
            final(self).wf(),
            r == old(self).restructure_check(borrower, new_deadline, new_amount),
            r is Err ==> *final(self) == *old(self),
            r is Ok ==> {
                &&& final(self).restructure_requests@.contains_key(borrower.0)
                &&& final(self).restructure_requests@.remove(borrower.0)
                    == old(self).restructure_requests@
                &&& ({
                    let q = final(self).restructure_requests@[borrower.0];
                    &&& q.borrower == borrower
                    &&& q.new_deadline == new_deadline
                    &&& q.new_amount == new_amount
                    &&& q.requested_at == now
                    &&& q.approvals@.len() == 0
                })
                &&& final(self).outbox@ == old(self).outbox@.push(
                    Effect::Event(
                        ContractEvent::RestructureRequested { borrower, new_deadline, new_amount },
                    ),
                )
                &&& final(self).loans@ == old(self).loans@
                &&& final(self).active_loans@ == old(self).active_loans@
                &&& final(self).vouches@ == old(self).vouches@
                &&& final(self).withdrawal_queues@ == old(self).withdrawal_queues@
                &&& final(self).loan_counter == old(self).loan_counter
                &&& final(self).insurance_pool == old(self).insurance_pool
                &&& final(self).config == old(self).config
                &&& final(self).deployer == old(self).deployer
                &&& final(self).address == old(self).address
                &&& final(self).paused == old(self).paused
                &&& final(self).locked == old(self).locked
            },
    {
        require_not_paused(self)?;
        let loan_id = match self.active_loans.get(&borrower.0) {
            Some(id) => *id,
            None => return Err(ContractError::NoActiveLoan),
        };
        let loan = match self.loans.get(&loan_id) {
            Some(l) => l,
            None => return Err(ContractError::NoActiveLoan),
        };
        assert(loan_wf(*loan, loan_id, self.loan_counter));
        if new_deadline <= loan.deadline {
            return Err(ContractError::InvalidAmount);
        }
        if new_amount != 0 {
            let outstanding = loan.amount + loan.total_yield - loan.amount_repaid;
            if new_amount <= 0 || new_amount > outstanding {
                return Err(ContractError::InvalidAmount);
            }
        }
        if self.restructure_requests.contains_key(&borrower.0) {
            return Err(ContractError::RestructureAlreadyPending);
        }
        let request = RestructureRequest {
            borrower,
            new_deadline,
            new_amount,
            requested_at: now,
            approvals: Vec::new(),
        };
        self.restructure_requests.insert(borrower.0, request);
        self.outbox.push(
            Effect::Event(ContractEvent::RestructureRequested { borrower, new_deadline, new_amount }),
        );
        assert(self.restructure_requests@.remove(borrower.0) =~= old(self).restructure_requests@);
        Ok(())
    }

    /// The outcome of the checks of `approve_restructure`, in the order they are made.
    pub open spec fn approve_check(&self, voucher: AccountId, borrower: AccountId) -> Result<(), ContractError> {
        let vs = self.vouches_of(borrower);
        if self.paused {
            Err(ContractError::ContractPaused)
        } else if !self.restructure_requests@.contains_key(borrower.0) {
            Err(ContractError::RestructureRequestNotFound)
        } else if !vouched_by(vs, voucher) {
            Err(ContractError::UnauthorizedCaller)
        } else if self.restructure_requests@[borrower.0].approvals@.contains(voucher) {
            Err(ContractError::AlreadyVoted)
        } else if self.approval_completes(voucher, borrower) && self.active_record(borrower) is None {
            Err(ContractError::NoActiveLoan)
        } else {
            Ok(())
        }
    }

    /// `voucher`'s approval is the last one the pending request needs.
    pub open spec fn approval_completes(&self, voucher: AccountId, borrower: AccountId) -> bool {
        approvals_complete(
            self.vouches_of(borrower),
            self.restructure_requests@[borrower.0].approvals@.push(voucher),
        )
    }

    /// Records `voucher`'s approval of `borrower`'s pending restructure.
    ///
    /// Only a voucher of the borrower may approve, and only once.  When every
    /// voucher has approved, the loan's deadline becomes the requested one
    /// and, when a positive amount below what is still owed was requested,
    /// what is owed is reduced to exactly that amount: the difference is
    /// taken off the yield first and then off the principal.  The request is
    /// then removed.
    pub fn approve_restructure(&mut self, voucher: AccountId, borrower: AccountId) -> (r: Result<
        (),
        ContractError,
    >)
        requires
            old(self).wf(),
        ensures
            final(self).wf(),
            r == old(self).approve_check(voucher, borrower),
            r is Err ==> *final(self) == *old(self),
            r is Ok ==> {
                let q = old(self).restructure_requests@[borrower.0];
                &&& old(self).approval_completes(voucher, borrower) ==> {
                    let id = old(self).active_loans@[borrower.0];
                    &&& final(self).loans@.contains_key(id)
                    &&& is_restructured_record(
                        final(self).loans@[id],
                        old(self).loans@[id],
                        q.new_deadline,
                        q.new_amount,
                    )
                    &&& q.new_amount > 0 && outstanding_of(old(self).loans@[id]) >= q.new_amount
                        ==> outstanding_of(final(self).loans@[id]) == q.new_amount
                    &&& final(self).loans@.remove(id) == old(self).loans@.remove(id)
                    &&& final(self).restructure_requests@ == old(self).restructure_requests@.remove(
                        borrower.0,
                    )
                    &&& final(self).outbox@ == old(self).outbox@.push(
                        Effect::Event(
                            ContractEvent::RestructureApplied { borrower, deadline: q.new_deadline },
                        ),
                    )
                }
                &&& !old(self).approval_completes(voucher, borrower) ==> {
                    let nq = final(self).restructure_requests@[borrower.0];
                    &&& final(self).loans@ == old(self).loans@
                    &&& final(self).restructure_requests@.contains_key(borrower.0)
                    &&& final(self).restructure_requests@.remove(borrower.0)
                        == old(self).restructure_requests@.remove(borrower.0)
                    &&& nq.approvals@ == q.approvals@.push(voucher)
                    &&& nq.borrower == q.borrower
                    &&& nq.new_deadline == q.new_deadline
                    &&& nq.new_amount == q.new_amount
                    &&& nq.requested_at == q.requested_at
                    &&& final(self).outbox@ == old(self).outbox@
                }
                &&& final(self).active_loans@ == old(self).active_loans@
                &&& final(self).vouches@ == old(self).vouches@
                &&& final(self).withdrawal_queues@ == old(self).withdrawal_queues@
                &&& final(self).loan_counter == old(self).loan_counter
                &&& final(self).insurance_pool == old(self).insurance_pool
                &&& final(self).config == old(self).config
                &&& final(self).deployer == old(self).deployer
                &&& final(self).address == old(self).address
                &&& final(self).paused == old(self).paused
                &&& final(self).locked == old(self).locked
            },
    {
        require_not_paused(self)?;
        let request = match self.restructure_requests.get(&borrower.0) {
            Some(q) => q,
            None => return Err(ContractError::RestructureRequestNotFound),
        };
        let empty: Vec<VouchRecord> = Vec::new();
        let vouches: &Vec<VouchRecord> = match self.vouches.get(&borrower.0) {
            Some(v) => v,
            None => &empty,
        };
        assert(vouches@ == old(self).vouches_of(borrower));
        if !has_vouch_by(vouches, voucher) {
            return Err(ContractError::UnauthorizedCaller);
        }
        if contains_account(&request.approvals, voucher) {
            return Err(ContractError::AlreadyVoted);
        }
        let all_approved = all_vouchers_approved(vouches, &request.approvals, voucher);
        if all_approved {
            let new_deadline = request.new_deadline;
            let new_amount = request.new_amount;
            let loan_id = match self.active_loans.get(&borrower.0) {
                Some(id) => *id,
                None => return Err(ContractError::NoActiveLoan),
            };
            let mut loan = match self.loans.remove(&loan_id) {
                Some(l) => l,
                None => return Err(ContractError::NoActiveLoan),
            };
            assert(loan_wf(loan, loan_id, self.loan_counter));
            loan.deadline = new_deadline;
            let outstanding = loan.amount + loan.total_yield - loan.amount_repaid;
            if new_amount > 0 && outstanding > new_amount {
                let forgiven = outstanding - new_amount;
                if forgiven <= loan.total_yield {
                    loan.total_yield = loan.total_yield - forgiven;
                } else {
                    loan.amount = loan.amount - (forgiven - loan.total_yield);
                    loan.total_yield = 0;
                }
            }
            self.loans.insert(loan_id, loan);
            self.restructure_requests.remove(&borrower.0);
            self.outbox.push(
                Effect::Event(ContractEvent::RestructureApplied { borrower, deadline: new_deadline }),
            );
            proof {
                assert(self.loans@.remove(loan_id) =~= old(self).loans@.remove(loan_id));
                assert forall|id: u64| #[trigger] self.loans@.contains_key(id) implies loan_wf(
                    self.loans@[id],
                    id,
                    self.loan_counter,
                ) by {
                    if id != loan_id {
                        assert(old(self).loans@.contains_key(id));
                    }
                }
            }
        } else {
            let mut request = self.restructure_requests.remove(&borrower.0).unwrap();
            request.approvals.push(voucher);
            self.restructure_requests.insert(borrower.0, request);
            assert(self.restructure_requests@.remove(borrower.0)
                =~= old(self).restructure_requests@.remove(borrower.0));
        }
        Ok(())
    }
}

// ── Range checks for hosts ────────────────────────────────────────────────────

impl QuorumCreditContract {
    /// Whether a request that passes its checks keeps the arithmetic of the
    /// granted loan within the machine integers.
    pub fn loan_request_fits(
        &self,
        borrower: AccountId,
        amount: i128,
        threshold: i128,
        loan_purpose: &String,
        token_addr: AccountId,
        now: u64,
    ) -> (r: bool)
        requires
            self.wf(),
            !self.paused ==> self.config is Some,
        ensures
            r == (self.request_loan_check(borrower, amount, threshold, loan_purpose@, token_addr) is Ok
                ==> self.request_loan_in_range(amount, now)),
    {
        if self.check_loan_request(borrower, amount, threshold, loan_purpose, token_addr).is_err() {
            return true;
        }
        let cfg = config(self);
        if self.loan_counter == u64::MAX {
            return false;
        }
        let yield_product = match amount.checked_mul(cfg.yield_bps) {
            Some(p) => p,
            None => return false,
        };
        if amount.checked_add(yield_product / 10_000).is_none() {
            return false;
        }
        if now.checked_add(cfg.loan_duration).is_none() {
            return false;
        }
        let premium_product = match amount.checked_mul(cfg.insurance_premium_bps) {
            Some(p) => p,
            None => return false,
        };
        if amount <= 0 || cfg.insurance_premium_bps == 0 {
            assert(self.premium_of(amount) <= 0) by (nonlinear_arith)
                requires
                    amount <= 0 || cfg.insurance_premium_bps == 0,
                    cfg.insurance_premium_bps >= 0,
                    self.premium_of(amount) == (if cfg.insurance_premium_bps > 0 {
                        amount * cfg.insurance_premium_bps / 10_000
                    } else {
                        0
                    }),
            ;
            return true;
        }
        assert(premium_product > 0) by (nonlinear_arith)
            requires
                amount > 0,
                cfg.insurance_premium_bps > 0,
                premium_product == amount * cfg.insurance_premium_bps,
        ;
        self.insurance_pool.checked_add(premium_product / 10_000).is_some()
    }

    /// Whether a repayment of `payment` by `borrower`, if its checks pass,
    /// keeps the yield shares within the machine integers.
    pub fn repayment_fits(&self, borrower: AccountId, payment: i128) -> (r: bool)
        requires
            self.wf(),
        ensures
            r == (self.repay_check(borrower, payment) is Ok ==> self.repay_in_range(borrower, payment)),
    {
        if self.paused {
            return true;
        }
        let loan = match crate::helpers::get_active_loan_record(self, borrower) {
            Ok(l) => l,
            Err(_) => return true,
        };
        let ghost loan_id = self.active_loans@[borrower.0];
        assert(loan_wf(*loan, loan_id, self.loan_counter));
        if payment <= 0 || payment > loan.amount + loan.total_yield - loan.amount_repaid {
            return true;
        }
        if require_allowed_token(self, loan.token_address).is_err() {
            return true;
        }
        if loan.amount_repaid + payment < loan.amount + loan.total_yield {
            return true;
        }
        let vs = match self.vouches.get(&borrower.0) {
            Some(v) => v,
            None => return true,
        };
        let n = vs.len();
        assert(stakes_bounded(vs@));
        assert(self.repay_check(borrower, payment) is Ok);
        assert(self.repay_settles(borrower, payment));
        for i in 0..n
            invariant
                self.repay_check(borrower, payment) is Ok,
                self.repay_settles(borrower, payment),
                self.active_record(borrower) == Some(*loan),
                n == vs@.len(),
                vs@ == self.vouches_of(borrower),
                stakes_bounded(vs@),
                loan.total_yield >= 0,
                forall|k: int|
                    0 <= k < i && vs@[k].token == loan.token_address ==> loan.total_yield
                        * #[trigger] vs@[k].stake <= i128::MAX,
        {
            if vs[i].token == loan.token_address && loan.total_yield.checked_mul(vs[i].stake).is_none() {
                assert(vs@[i as int].stake > 0);
                assert(loan.total_yield * vs@[i as int].stake >= 0) by (nonlinear_arith)
                    requires
                        loan.total_yield >= 0,
                        vs@[i as int].stake > 0,
                ;
                assert(!(loan.total_yield * vs@[i as int].stake <= i128::MAX));
                assert(!self.repay_in_range(borrower, payment));
                return false;
            }
        }
        true
    }
}

} // verus!
