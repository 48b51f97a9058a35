//! The protocol's storage and its initialization, configuration and queries.

use std::collections::HashMap;
use vstd::prelude::*;

use crate::errors::ContractError;
use crate::helpers::{admin_approval, distinct, require_admin_approval};
use crate::lending::vouched_by;
use crate::stake::stakes_bounded;
use crate::types::{
    AccountId, Config, LoanRecord, LoanStatus, QueuedWithdrawal, RestructureRequest, VouchRecord,
    BPS_DENOMINATOR, DEFAULT_LOAN_DURATION, DEFAULT_MAX_LOAN_TO_STAKE_RATIO, DEFAULT_MAX_VOUCHERS,
    DEFAULT_MIN_LOAN_AMOUNT, DEFAULT_MIN_VOUCH_AGE_SECS, DEFAULT_SLASH_BPS, DEFAULT_YIELD_BPS,
};

verus! {

broadcast use vstd::std_specs::hash::group_hash_axioms;

/// An event that the contract publishes.
#[derive(Clone, Copy, Debug, PartialEq, Eq, Structural)]
pub enum ContractEvent {
    /// ("loan", "created"): a loan was disbursed.
    LoanCreated { borrower: AccountId, amount: i128 },
    /// ("loan", "repaid"): a loan was repaid in full.
    LoanRepaid { borrower: AccountId, amount: i128 },
    /// ("loan", "restruct"): a borrower asked to restructure a loan.
    RestructureRequested { borrower: AccountId, new_deadline: u64, new_amount: i128 },
    /// ("loan", "rst_done"): every voucher approved and the loan was restructured.
    RestructureApplied { borrower: AccountId, deadline: u64 },
}

/// Something an operation asks the host to carry out, in order.
#[derive(Clone, Copy, Debug, PartialEq, Eq, Structural)]
pub enum Effect {
    /// Move `amount` of `token` from `from` to `to`.
    Transfer { token: AccountId, from: AccountId, to: AccountId, amount: i128 },
    /// Publish an event.
    Event(ContractEvent),
}

pub open spec fn transfer(token: AccountId, from: AccountId, to: AccountId, amount: int) -> Effect {
    Effect::Transfer { token, from, to, amount: amount as i128 }
}

/// The contract's persistent state.  Maps keyed by an account are keyed by
/// the account's handle.
pub struct QuorumCreditContract {
    /// The contract's own account.
    pub address: AccountId,
    pub deployer: Option<AccountId>,
    pub config: Option<Config>,
    pub paused: bool,
    /// Reentrancy lock.
    pub locked: bool,
    /// Identifier of the most recently created loan.
    pub loan_counter: u64,
    /// Loan records by loan id.
    pub loans: HashMap<u64, LoanRecord>,
    /// Borrower to the id of the borrower's current loan.
    pub active_loans: HashMap<u64, u64>,
    /// Borrower to the vouches backing the borrower.
    pub vouches: HashMap<u64, Vec<VouchRecord>>,
    /// Borrower to the stake withdrawals waiting for the loan to close.
    pub withdrawal_queues: HashMap<u64, Vec<QueuedWithdrawal>>,
    /// Borrower to the borrower's pending restructure request.
    pub restructure_requests: HashMap<u64, RestructureRequest>,
    /// Accumulated insurance premiums.
    pub insurance_pool: i128,
    /// Transfers and events not yet carried out by the host.
    pub outbox: Vec<Effect>,
}

/// The parameters that the lending rules depend on have their protocol values.
pub open spec fn config_wf(cfg: Config) -> bool {
    &&& 0 <= cfg.yield_bps <= BPS_DENOMINATOR
    &&& 0 <= cfg.insurance_premium_bps <= BPS_DENOMINATOR
    &&& cfg.min_loan_amount > 0
}

/// A stored loan: its id matches its key, what was repaid never exceeds
/// what is owed, and an active loan still owes something.
pub open spec fn loan_wf(l: LoanRecord, id: u64, counter: u64) -> bool {
    &&& l.id == id
    &&& 1 <= id <= counter
    &&& 0 < l.amount
    &&& 0 <= l.total_yield <= l.amount
    &&& l.amount + l.total_yield <= i128::MAX
    &&& 0 <= l.amount_repaid <= l.amount + l.total_yield
    &&& l.status == LoanStatus::Active ==> l.amount_repaid < l.amount + l.total_yield
}

/// The default configuration that `initialize` stores.
pub open spec fn is_initial_config(c: Config, admins: Seq<AccountId>, threshold: u32, token: AccountId) -> bool {
    &&& c.admins@ == admins
    &&& c.admin_threshold == threshold
    &&& c.token == token
    &&& c.allowed_tokens@ == Seq::<AccountId>::empty()
    &&& c.yield_bps == DEFAULT_YIELD_BPS
    &&& c.slash_bps == DEFAULT_SLASH_BPS
    &&& c.max_vouchers == DEFAULT_MAX_VOUCHERS
    &&& c.min_loan_amount == DEFAULT_MIN_LOAN_AMOUNT
    &&& c.loan_duration == DEFAULT_LOAN_DURATION
    &&& c.max_loan_to_stake_ratio == DEFAULT_MAX_LOAN_TO_STAKE_RATIO
    &&& c.grace_period == 0
    &&& c.min_vouch_age_secs == DEFAULT_MIN_VOUCH_AGE_SECS
    &&& c.prepayment_penalty_bps == 0
    &&& c.allowed_purposes@.len() == 0
    &&& c.insurance_premium_bps == 0
}

impl QuorumCreditContract {
    /// The state's invariant.
    pub open spec fn wf(&self) -> bool {
        &&& (self.config matches Some(cfg) ==> config_wf(cfg))
        &&& forall|id: u64| #[trigger]
            self.loans@.contains_key(id) ==> loan_wf(self.loans@[id], id, self.loan_counter)
                && self.config is Some
        &&& forall|b: u64| #[trigger]
            self.active_loans@.contains_key(b) ==> self.loans@.contains_key(self.active_loans@[b])
        &&& forall|b: u64| #[trigger]
            self.vouches@.contains_key(b) ==> stakes_bounded(self.vouches@[b]@)
        &&& forall|b: u64| #[trigger]
            self.restructure_requests@.contains_key(b) ==> distinct(
                self.restructure_requests@[b].approvals@,
            )
        &&& self.insurance_pool >= 0
    }

    /// The vouches backing `borrower` (none when nothing is stored).
    pub open spec fn vouches_of(&self, borrower: AccountId) -> Seq<VouchRecord> {
        if self.vouches@.contains_key(borrower.0) {
            self.vouches@[borrower.0]@
        } else {
            Seq::empty()
        }
    }

    /// The withdrawals queued for `borrower` (none when nothing is stored).
    pub open spec fn queue_of(&self, borrower: AccountId) -> Seq<QueuedWithdrawal> {
        if self.withdrawal_queues@.contains_key(borrower.0) {
            self.withdrawal_queues@[borrower.0]@
        } else {
            Seq::empty()
        }
    }

    /// The loan that `borrower`'s active-loan entry points to, if both exist.
    pub open spec fn active_record(&self, borrower: AccountId) -> Option<LoanRecord> {
        if self.active_loans@.contains_key(borrower.0) && self.loans@.contains_key(
            self.active_loans@[borrower.0],
        ) {
            Some(self.loans@[self.active_loans@[borrower.0]])
        } else {
            None
        }
    }

    /// `borrower` has a loan whose status is `Active`.
    pub open spec fn has_active(&self, borrower: AccountId) -> bool {
        self.active_record(borrower) matches Some(l) && l.status == LoanStatus::Active
    }

    /// Everything but the configuration and deployer is as in `other`.
    pub open spec fn same_storage_but_config(&self, other: &Self) -> bool {
        &&& self.address == other.address
        &&& self.paused == other.paused
        &&& self.locked == other.locked
        &&& self.loan_counter == other.loan_counter
        &&& self.loans@ == other.loans@
        &&& self.active_loans@ == other.active_loans@
        &&& self.vouches@ == other.vouches@
        &&& self.withdrawal_queues@ == other.withdrawal_queues@
        &&& self.restructure_requests@ == other.restructure_requests@
        &&& self.insurance_pool == other.insurance_pool
        &&& self.outbox@ == other.outbox@
    }

    /// Everything but the reentrancy lock is as in `other`.
    pub open spec fn same_except_lock(&self, other: &Self) -> bool {
        &&& self.deployer == other.deployer
        &&& self.config == other.config
        &&& self.address == other.address
        &&& self.paused == other.paused
        &&& self.loan_counter == other.loan_counter
        &&& self.loans@ == other.loans@
        &&& self.active_loans@ == other.active_loans@
        &&& self.vouches@ == other.vouches@
        &&& self.withdrawal_queues@ == other.withdrawal_queues@
        &&& self.restructure_requests@ == other.restructure_requests@
        &&& self.insurance_pool == other.insurance_pool
        &&& self.outbox@ == other.outbox@
    }

    /// A fresh, uninitialized contract living at `address`.
    pub fn new(address: AccountId) -> (c: Self)
        ensures
            c.wf(),
            c.address == address,
            c.deployer is None,
            c.config is None,
            !c.paused,
            !c.locked,
            c.loan_counter == 0,
            c.loans@ == Map::<u64, LoanRecord>::empty(),
            c.active_loans@ == Map::<u64, u64>::empty(),
            c.vouches@ == Map::<u64, Vec<VouchRecord>>::empty(),
            c.withdrawal_queues@ == Map::<u64, Vec<QueuedWithdrawal>>::empty(),
            c.restructure_requests@ == Map::<u64, RestructureRequest>::empty(),
            c.insurance_pool == 0,
            c.outbox@ == Seq::<Effect>::empty(),
    {
        QuorumCreditContract {
            address,
            deployer: None,
            config: None,
            paused: false,
            locked: false,
            loan_counter: 0,
            loans: HashMap::new(),
            active_loans: HashMap::new(),
            vouches: HashMap::new(),
            withdrawal_queues: HashMap::new(),
            restructure_requests: HashMap::new(),
            insurance_pool: 0,
            outbox: Vec::new(),
        }
    }

    /// Stores the deployer and the initial configuration.
    ///
    /// Refused with `AlreadyInitialized` when a configuration exists, and with
    /// `InvalidAmount` when `admins` is empty or the threshold is 0 or larger
    /// than the number of admins.
    pub fn initialize(
        &mut self,
        deployer: AccountId,
        admins: Vec<AccountId>,
        admin_threshold: u32,
        token: AccountId,
    ) -> (r: Result<(), ContractError>)
        requires
            old(self).wf(),
        ensures
            final(self).wf(),
            old(self).config is Some ==> r == Err::<(), ContractError>(
                ContractError::AlreadyInitialized,
            ),
            old(self).config is None && (admins@.len() == 0 || admin_threshold == 0
                || admin_threshold > admins@.len()) ==> r == Err::<(), ContractError>(
                ContractError::InvalidAmount,
            ),
            r is Err ==> *final(self) == *old(self),
            r is Ok <==> (old(self).config is None && admins@.len() > 0 && 0 < admin_threshold
                <= admins@.len()),
            r is Ok ==> {
                &&& final(self).deployer == Some(deployer)
                &&& final(self).config matches Some(c) && is_initial_config(
                    c,
                    admins@,
                    admin_threshold,
                    token,
                )
                &&& final(self).same_storage_but_config(old(self))
            },
    {
        if self.config.is_some() {
            return Err(ContractError::AlreadyInitialized);
        }
        if admins.len() == 0 || admin_threshold == 0 || (admin_threshold as u64) > (
        admins.len() as u64) {
            return Err(ContractError::InvalidAmount);
        }
        self.deployer = Some(deployer);
        self.config = Some(
            Config {
                admins,
                admin_threshold,
                token,
                allowed_tokens: Vec::new(),
                yield_bps: DEFAULT_YIELD_BPS,
                slash_bps: DEFAULT_SLASH_BPS,
                max_vouchers: DEFAULT_MAX_VOUCHERS,
                min_loan_amount: DEFAULT_MIN_LOAN_AMOUNT,
                loan_duration: DEFAULT_LOAN_DURATION,
                max_loan_to_stake_ratio: DEFAULT_MAX_LOAN_TO_STAKE_RATIO,
                grace_period: 0,
                min_vouch_age_secs: DEFAULT_MIN_VOUCH_AGE_SECS,
                prepayment_penalty_bps: 0,
                allowed_purposes: Vec::new(),
                insurance_premium_bps: 0,
            },
        );
        Ok(())
    }
}

/// `new` agrees with `old` on every field but the purpose whitelist.
pub open spec fn same_config_but_purposes(new: Config, old: Config) -> bool {
    &&& new.admins == old.admins
    &&& new.admin_threshold == old.admin_threshold
    &&& new.token == old.token
    &&& new.allowed_tokens == old.allowed_tokens
    &&& new.yield_bps == old.yield_bps
    &&& new.slash_bps == old.slash_bps
    &&& new.max_vouchers == old.max_vouchers
    &&& new.min_loan_amount == old.min_loan_amount
    &&& new.loan_duration == old.loan_duration
    &&& new.max_loan_to_stake_ratio == old.max_loan_to_stake_ratio
    &&& new.grace_period == old.grace_period
    &&& new.min_vouch_age_secs == old.min_vouch_age_secs
    &&& new.prepayment_penalty_bps == old.prepayment_penalty_bps
    &&& new.insurance_premium_bps == old.insurance_premium_bps
}

impl QuorumCreditContract {
    /// The loan that `borrower`'s active-loan entry points to.
    pub fn get_loan(&self, borrower: AccountId) -> (r: Option<&LoanRecord>)
        ensures
            match r {
                Some(l) => self.active_record(borrower) == Some(*l),
                None => self.active_record(borrower) is None,
            },
    {
        let loan_id = match self.active_loans.get(&borrower.0) {
            Some(id) => *id,
            None => return None,
        };
        self.loans.get(&loan_id)
    }

    /// The vouches backing `borrower`, in the order they were made.
    pub fn get_vouches(&self, borrower: AccountId) -> (r: Vec<VouchRecord>)
        ensures
            r@ == self.vouches_of(borrower),
    {
        let mut out: Vec<VouchRecord> = Vec::new();
        match self.vouches.get(&borrower.0) {
            Some(vs) => {
                let n = vs.len();
                for i in 0..n
                    invariant
                        n == vs@.len(),
                        out@ == vs@.take(i as int),
                {
                    out.push(vs[i].clone());
                    assert(out@ =~= vs@.take(i + 1));
                }
                assert(vs@.take(n as int) =~= vs@);
            },
            None => {},
        }
        out
    }

    /// Whether `voucher` vouches for `borrower`.
    pub fn vouch_exists(&self, voucher: AccountId, borrower: AccountId) -> (r: bool)
        ensures
            r == vouched_by(self.vouches_of(borrower), voucher),
    {
        match self.vouches.get(&borrower.0) {
            Some(vs) => crate::lending::has_vouch_by(vs, voucher),
            None => false,
        }
    }

    /// Replaces the loan purpose whitelist (empty = every purpose allowed),
    /// with the approval of the admins in `admin_signers`.
    pub fn set_allowed_purposes(&mut self, admin_signers: &Vec<AccountId>, purposes: Vec<String>) -> (r:
        Result<(), ContractError>)
        requires
            old(self).wf(),
            old(self).config is Some,
        ensures
            final(self).wf(),
            r == admin_approval(old(self).config->0, admin_signers@),
            r is Err ==> *final(self) == *old(self),
            r is Ok ==> {
                &&& final(self).config matches Some(c) && c.allowed_purposes@ == purposes@
                    && same_config_but_purposes(c, old(self).config->0)
                &&& final(self).deployer == old(self).deployer
                &&& final(self).same_storage_but_config(old(self))
            },
    {
        require_admin_approval(self, admin_signers)?;
        let mut cfg = self.config.take().unwrap();
        cfg.allowed_purposes = purposes;
        self.config = Some(cfg);
        Ok(())
    }

    /// Sets the insurance premium charged on disbursement, in basis points
    /// (0 = disabled), with the approval of the admins in `admin_signers`.
    /// Refused with `InvalidAmount` outside 0..=10_000.
    pub fn set_insurance_premium_bps(&mut self, admin_signers: &Vec<AccountId>, bps: i128) -> (r:
        Result<(), ContractError>)
        requires
            old(self).wf(),
            old(self).config is Some,
        ensures
            final(self).wf(),
            r == (match admin_approval(old(self).config->0, admin_signers@) {
                Err(e) => Err(e),
                Ok(()) => if bps < 0 || bps > BPS_DENOMINATOR {
                    Err(ContractError::InvalidAmount)
                } else {
                    Ok(())
                },
            }),
            r is Err ==> *final(self) == *old(self),
            r is Ok ==> {
                &&& final(self).config matches Some(c) && c.insurance_premium_bps == bps
                    && c.allowed_purposes == old(self).config->0.allowed_purposes
                    && same_config_but_premium(c, old(self).config->0)
                &&& final(self).deployer == old(self).deployer
                &&& final(self).same_storage_but_config(old(self))
            },
    {
        require_admin_approval(self, admin_signers)?;
        if bps < 0 || bps > 10_000 {
            return Err(ContractError::InvalidAmount);
        }
        let mut cfg = self.config.take().unwrap();
        cfg.insurance_premium_bps = bps;
        self.config = Some(cfg);
        Ok(())
    }

    /// The accumulated insurance premiums.
    pub fn get_insurance_pool_balance(&self) -> (r: i128)
        ensures
            r == self.insurance_pool,
    {
        self.insurance_pool
    }

    /// The pending restructure request of `borrower`, if any.
    pub fn get_restructure_request(&self, borrower: AccountId) -> (r: Option<&RestructureRequest>)
        ensures
            match r {
                Some(q) => self.restructure_requests@.contains_key(borrower.0)
                    && self.restructure_requests@[borrower.0] == *q,
                None => !self.restructure_requests@.contains_key(borrower.0),
            },
    {
        self.restructure_requests.get(&borrower.0)
    }
}

/// `new` agrees with `old` on every field but the purposes and the premium.
pub open spec fn same_config_but_premium(new: Config, old: Config) -> bool {
    &&& new.admins == old.admins
    &&& new.admin_threshold == old.admin_threshold
    &&& new.token == old.token
    &&& new.allowed_tokens == old.allowed_tokens
    &&& new.yield_bps == old.yield_bps
    &&& new.slash_bps == old.slash_bps
    &&& new.max_vouchers == old.max_vouchers
    &&& new.min_loan_amount == old.min_loan_amount
    &&& new.loan_duration == old.loan_duration
    &&& new.max_loan_to_stake_ratio == old.max_loan_to_stake_ratio
    &&& new.grace_period == old.grace_period
    &&& new.min_vouch_age_secs == old.min_vouch_age_secs
    &&& new.prepayment_penalty_bps == old.prepayment_penalty_bps
}

} // verus!
