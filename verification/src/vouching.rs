//! Vouching: staking for a borrower, adjusting and withdrawing stakes, and
//! the queue of withdrawals that wait for a borrower's loan to close.

use vstd::prelude::*;

use crate::contract::{transfer, Effect, QuorumCreditContract};
use crate::errors::ContractError;
use crate::helpers::{has_active_loan, require_allowed_token, require_not_paused, token_allowed};
use crate::lending::{has_vouch_by, vouched_by};
use crate::stake::{
    lemma_sums_nonneg, lemma_total_push, lemma_total_remove, lemma_total_update, stakes_bounded,
    total_staked, MAX_BORROWER_STAKE,
};
use crate::types::{AccountId, QueuedWithdrawal, VouchRecord};

verus! {

broadcast use vstd::std_specs::hash::group_hash_axioms;

/// Index of the first vouch in `vs` by `voucher`, or `vs.len()`.
pub open spec fn first_vouch_by(vs: Seq<VouchRecord>, voucher: AccountId) -> int
    decreases vs.len(),
{
    if vs.len() == 0 {
        0
    } else if vs[0].voucher == voucher {
        0
    } else {
        1 + first_vouch_by(vs.drop_first(), voucher)
    }
}

pub proof fn lemma_first_vouch_by(vs: Seq<VouchRecord>, voucher: AccountId, i: int)
    requires
        0 <= i <= vs.len(),
        forall|k: int| 0 <= k < i ==> vs[k].voucher != voucher,
        i == vs.len() || vs[i].voucher == voucher,
    ensures
        first_vouch_by(vs, voucher) == i,
    decreases vs.len(),
{
    if vs.len() > 0 && i > 0 {
        assert forall|k: int| 0 <= k < i - 1 implies vs.drop_first()[k].voucher != voucher by {
            assert(vs[k + 1].voucher != voucher);
        }
        lemma_first_vouch_by(vs.drop_first(), voucher, i - 1);
    }
}

/// Position of the first vouch in `vs` by `voucher`, if any.
fn find_vouch(vs: &Vec<VouchRecord>, voucher: AccountId) -> (r: Option<usize>)
    ensures
        match r {
            Some(i) => i == first_vouch_by(vs@, voucher) && i < vs@.len() && vs@[i as int].voucher
                == voucher && vouched_by(vs@, voucher),
            None => first_vouch_by(vs@, voucher) == vs@.len() && !vouched_by(vs@, voucher),
        },
{
    let n = vs.len();
    for i in 0..n
        invariant
            n == vs@.len(),
            forall|k: int| 0 <= k < i ==> #[trigger] vs@[k].voucher != voucher,
    {
        if vs[i].voucher == voucher {
            proof {
                lemma_first_vouch_by(vs@, voucher, i as int);
            }
            return Some(i);
        }
    }
    proof {
        lemma_first_vouch_by(vs@, voucher, n as int);
    }
    None
}

/// Where a withdrawal paying `fee` joins `q`: before the first request that
/// pays less, so higher fees are served first and equal fees in order.
pub open spec fn queue_position(q: Seq<QueuedWithdrawal>, fee: i128) -> int
    decreases q.len(),
{
    if q.len() == 0 {
        0
    } else if q[0].priority_fee < fee {
        0
    } else {
        1 + queue_position(q.drop_first(), fee)
    }
}

proof fn lemma_queue_position(q: Seq<QueuedWithdrawal>, fee: i128, i: int)
    requires
        0 <= i <= q.len(),
        forall|k: int| 0 <= k < i ==> q[k].priority_fee >= fee,
        i == q.len() || q[i].priority_fee < fee,
    ensures
        queue_position(q, fee) == i,
    decreases q.len(),
{
    if q.len() > 0 && i > 0 {
        assert forall|k: int| 0 <= k < i - 1 implies q.drop_first()[k].priority_fee >= fee by {
            assert(q[k + 1].priority_fee >= fee);
        }
        lemma_queue_position(q.drop_first(), fee, i - 1);
    }
}

/// `q` is ordered by priority fee, highest first.
pub open spec fn fee_ordered(q: Seq<QueuedWithdrawal>) -> bool {
    forall|i: int, j: int| 0 <= i < j < q.len() ==> q[i].priority_fee >= q[j].priority_fee
}

impl QuorumCreditContract {
    /// Adds `entry` to `borrower`'s withdrawal queue at its priority position.
    fn enqueue_withdrawal(&mut self, borrower: AccountId, entry: QueuedWithdrawal)
        ensures
            final(self).withdrawal_queues@.contains_key(borrower.0),
            final(self).withdrawal_queues@.remove(borrower.0) == old(self).withdrawal_queues@.remove(
                borrower.0,
            ),
            final(self).queue_of(borrower) == old(self).queue_of(borrower).insert(
                queue_position(old(self).queue_of(borrower), entry.priority_fee),
                entry,
            ),
            final(self).address == old(self).address,
            final(self).deployer == old(self).deployer,
            final(self).config == old(self).config,
            final(self).paused == old(self).paused,
            final(self).locked == old(self).locked,
            final(self).loan_counter == old(self).loan_counter,
            final(self).loans@ == old(self).loans@,
            final(self).active_loans@ == old(self).active_loans@,
            final(self).vouches@ == old(self).vouches@,
            final(self).restructure_requests@ == old(self).restructure_requests@,
            final(self).insurance_pool == old(self).insurance_pool,
            final(self).outbox@ == old(self).outbox@,
    {
        let mut queue = match self.withdrawal_queues.remove(&borrower.0) {
            Some(q) => q,
            None => Vec::new(),
        };
        assert(queue@ == old(self).queue_of(borrower));
        let n = queue.len();
        let mut pos: usize = 0;
        while pos < n && queue[pos].priority_fee >= entry.priority_fee
            invariant
                n == queue@.len(),
                pos <= n,
                forall|k: int| 0 <= k < pos ==> queue@[k].priority_fee >= entry.priority_fee,
            decreases n - pos,
        {
            pos = pos + 1;
        }
        proof {
            lemma_queue_position(queue@, entry.priority_fee, pos as int);
        }
        queue.insert(pos, entry);
        self.withdrawal_queues.insert(borrower.0, queue);
        assert(self.withdrawal_queues@.remove(borrower.0) =~= old(self).withdrawal_queues@.remove(
            borrower.0,
        ));
    }
}

impl QuorumCreditContract {
    /// Everything but the vouches, the withdrawal queues and the outbox is as in `other`.
    pub open spec fn same_loans_and_config(&self, other: &Self) -> bool {
        &&& self.address == other.address
        &&& self.deployer == other.deployer
        &&& self.config == other.config
        &&& self.paused == other.paused
        &&& self.locked == other.locked
        &&& self.loan_counter == other.loan_counter
        &&& self.loans@ == other.loans@
        &&& self.active_loans@ == other.active_loans@
        &&& self.restructure_requests@ == other.restructure_requests@
        &&& self.insurance_pool == other.insurance_pool
    }

    /// `borrower`'s vouches are now `vs`; no other borrower's changed.
    pub open spec fn vouches_now(&self, old: &Self, borrower: AccountId, vs: Seq<VouchRecord>) -> bool {
        &&& self.vouches@.contains_key(borrower.0)
        &&& self.vouches@.remove(borrower.0) == old.vouches@.remove(borrower.0)
        &&& self.vouches_of(borrower) == vs
    }

    /// The outcome of the checks of `vouch_with_sector`, in the order they are made.
    pub open spec fn vouch_check(
        &self,
        voucher: AccountId,
        borrower: AccountId,
        stake: i128,
        token: AccountId,
    ) -> Result<(), ContractError> {
        let cfg = self.config->0;
        let vs = self.vouches_of(borrower);
        if self.paused {
            Err(ContractError::ContractPaused)
        } else if stake <= 0 {
            Err(ContractError::InvalidAmount)
        } else if voucher == borrower {
            Err(ContractError::SelfVouchNotAllowed)
        } else if !token_allowed(cfg, token) {
            Err(ContractError::InvalidToken)
        } else if vouched_by(vs, voucher) {
            Err(ContractError::DuplicateVouch)
        } else if vs.len() >= cfg.max_vouchers {
            Err(ContractError::MaxVouchersPerBorrowerExceeded)
        } else if total_staked(vs) + stake > MAX_BORROWER_STAKE {
            Err(ContractError::StakeOverflow)
        } else {
            Ok(())
        }
    }

    /// Stakes `stake` of `token` for `borrower`, labelled with `sector` for
    /// diversification limits, at ledger time `now`.
    ///
    /// The stake must be positive, the voucher must not be the borrower, the
    /// token must be allowed, the voucher must not already vouch for the
    /// borrower, the borrower's vouches must stay below the configured maximum
    /// and the borrower's total stake within `MAX_BORROWER_STAKE`.  The stake
    /// is transferred from the voucher to the contract.
    pub fn vouch_with_sector(
        &mut self,
        now: u64,
        voucher: AccountId,
        borrower: AccountId,
        stake: i128,
        token: AccountId,
        sector: String,
    ) -> (r: Result<(), ContractError>)
        requires
            old(self).wf(),
            old(self).config is Some,
        ensures
            final(self).wf(),
            r == old(self).vouch_check(voucher, borrower, stake, token),
            r is Err ==> *final(self) == *old(self),
            r is Ok ==> {
                let vs = final(self).vouches_of(borrower);
                &&& vs.len() == old(self).vouches_of(borrower).len() + 1
                &&& vs.drop_last() == old(self).vouches_of(borrower)
                &&& vs.last().voucher == voucher
                &&& vs.last().stake == stake
                &&& vs.last().vouch_timestamp == now
                &&& vs.last().token == token
                &&& vs.last().sector@ == sector@
                &&& final(self).vouches@.contains_key(borrower.0)
                &&& final(self).vouches@.remove(borrower.0) == old(self).vouches@.remove(borrower.0)
                &&& final(self).withdrawal_queues@ == old(self).withdrawal_queues@
                &&& final(self).outbox@ == old(self).outbox@.push(
                    transfer(token, voucher, old(self).address, stake as int),
                )
                &&& final(self).same_loans_and_config(old(self))
            },
    {
        require_not_paused(self)?;
        if stake <= 0 {
            return Err(ContractError::InvalidAmount);
        }
        if voucher == borrower {
            return Err(ContractError::SelfVouchNotAllowed);
        }
        require_allowed_token(self, token)?;
        let max_vouchers = crate::helpers::config(self).max_vouchers;
        let mut vouches = match self.vouches.get(&borrower.0) {
            Some(v) => {
                if has_vouch_by(v, voucher) {
                    return Err(ContractError::DuplicateVouch);
                }
                if (v.len() as u64) >= (max_vouchers as u64) {
                    return Err(ContractError::MaxVouchersPerBorrowerExceeded);
                }
                let total = crate::lending::sum_all_stake(v);
                if total > MAX_BORROWER_STAKE - stake {
                    return Err(ContractError::StakeOverflow);
                }
                self.vouches.remove(&borrower.0).unwrap()
            },
            None => {
                if max_vouchers == 0 {
                    return Err(ContractError::MaxVouchersPerBorrowerExceeded);
                }
                if stake > MAX_BORROWER_STAKE {
                    return Err(ContractError::StakeOverflow);
                }
                Vec::new()
            },
        };
        assert(vouches@ == old(self).vouches_of(borrower));
        let record = VouchRecord { voucher, stake, vouch_timestamp: now, token, sector };
        proof {
            lemma_total_push(vouches@, record);
        }
        vouches.push(record);
        self.vouches.insert(borrower.0, vouches);
        let contract = self.address;
        self.outbox.push(Effect::Transfer { token, from: voucher, to: contract, amount: stake });
        proof {
            assert(self.vouches@.remove(borrower.0) =~= old(self).vouches@.remove(borrower.0));
            assert(self.vouches_of(borrower).drop_last() =~= old(self).vouches_of(borrower));
        }
        Ok(())
    }

    /// Stakes `stake` of `token` for `borrower` without a sector label.
    pub fn vouch(&mut self, now: u64, voucher: AccountId, borrower: AccountId, stake: i128, token: AccountId) -> (r:
        Result<(), ContractError>)
        requires
            old(self).wf(),
            old(self).config is Some,
        ensures
            final(self).wf(),
            r == old(self).vouch_check(voucher, borrower, stake, token),
            r is Err ==> *final(self) == *old(self),
            r is Ok ==> {
                let vs = final(self).vouches_of(borrower);
                &&& vs.len() == old(self).vouches_of(borrower).len() + 1
                &&& vs.drop_last() == old(self).vouches_of(borrower)
                &&& vs.last().voucher == voucher
                &&& vs.last().stake == stake
                &&& vs.last().vouch_timestamp == now
                &&& vs.last().token == token
                &&& vs.last().sector@ == Seq::<char>::empty()
                &&& final(self).vouches@.contains_key(borrower.0)
                &&& final(self).vouches@.remove(borrower.0) == old(self).vouches@.remove(borrower.0)
                &&& final(self).withdrawal_queues@ == old(self).withdrawal_queues@
                &&& final(self).outbox@ == old(self).outbox@.push(
                    transfer(token, voucher, old(self).address, stake as int),
                )
                &&& final(self).same_loans_and_config(old(self))
            },
    {
        self.vouch_with_sector(now, voucher, borrower, stake, token, String::new())
    }
}

impl QuorumCreditContract {
    /// The vouch of `voucher` for `borrower` (the first one, if several).
    pub open spec fn vouch_of(&self, voucher: AccountId, borrower: AccountId) -> VouchRecord {
        self.vouches_of(borrower)[first_vouch_by(self.vouches_of(borrower), voucher)]
    }

    /// The outcome of the checks of `increase_stake`, in the order they are made.
    pub open spec fn increase_check(&self, voucher: AccountId, borrower: AccountId, additional: i128) -> Result<(), ContractError> {
        let vs = self.vouches_of(borrower);
        if self.paused {
            Err(ContractError::ContractPaused)
        } else if additional <= 0 {
            Err(ContractError::InvalidAmount)
        } else if !vouched_by(vs, voucher) {
            Err(ContractError::VoucherNotFound)
        } else if total_staked(vs) + additional > MAX_BORROWER_STAKE {
            Err(ContractError::StakeOverflow)
        } else {
            Ok(())
        }
    }

    /// Adds `additional` to `voucher`'s stake for `borrower`; the amount is
    /// transferred from the voucher to the contract in the stake's token.
    pub fn increase_stake(&mut self, voucher: AccountId, borrower: AccountId, additional: i128) -> (r:
        Result<(), ContractError>)
        requires
            old(self).wf(),
        ensures
            final(self).wf(),
            r == old(self).increase_check(voucher, borrower, additional),
            r is Err ==> *final(self) == *old(self),
            r is Ok ==> {
                let k = first_vouch_by(old(self).vouches_of(borrower), voucher);
                let v = old(self).vouch_of(voucher, borrower);
                &&& final(self).vouches_now(
                    old(self),
                    borrower,
                    old(self).vouches_of(borrower).update(
                        k,
                        VouchRecord { stake: (v.stake + additional) as i128, ..v },
                    ),
                )
                &&& final(self).withdrawal_queues@ == old(self).withdrawal_queues@
                &&& final(self).outbox@ == old(self).outbox@.push(
                    transfer(v.token, voucher, old(self).address, additional as int),
                )
                &&& final(self).same_loans_and_config(old(self))
            },
    {
        require_not_paused(self)?;
        if additional <= 0 {
            return Err(ContractError::InvalidAmount);
        }
        let (k, total) = match self.vouches.get(&borrower.0) {
            Some(v) => match find_vouch(v, voucher) {
                Some(k) => (k, crate::lending::sum_all_stake(v)),
                None => return Err(ContractError::VoucherNotFound),
            },
            None => return Err(ContractError::VoucherNotFound),
        };
        if total > MAX_BORROWER_STAKE - additional {
            return Err(ContractError::StakeOverflow);
        }
        let mut vouches = self.vouches.remove(&borrower.0).unwrap();
        assert(vouches@ == old(self).vouches_of(borrower));
        let mut record = vouches.remove(k);
        let token = record.token;
        let ghost old_record = record;
        proof {
            lemma_sums_nonneg(old(self).vouches_of(borrower), token, Seq::empty());
            crate::stake::lemma_total_prefix(old(self).vouches_of(borrower), 0);
            lemma_total_update(
                old(self).vouches_of(borrower),
                k as int,
                VouchRecord { stake: (old_record.stake + additional) as i128, ..old_record },
            );
            assert(old_record.stake <= total_staked(old(self).vouches_of(borrower))) by {
                lemma_total_remove(old(self).vouches_of(borrower), k as int);
                lemma_sums_nonneg(old(self).vouches_of(borrower).remove(k as int), token, Seq::empty());
            }
        }
        record.stake = record.stake + additional;
        vouches.insert(k, record);
        self.vouches.insert(borrower.0, vouches);
        let contract = self.address;
        self.outbox.push(Effect::Transfer { token, from: voucher, to: contract, amount: additional });
        proof {
            assert(self.vouches@.remove(borrower.0) =~= old(self).vouches@.remove(borrower.0));
            assert(self.vouches_of(borrower) =~= old(self).vouches_of(borrower).update(
                k as int,
                VouchRecord { stake: (old_record.stake + additional) as i128, ..old_record },
            ));
        }
        Ok(())
    }
}

impl QuorumCreditContract {
    /// `borrower`'s withdrawal queue now also holds `entry` at its priority
    /// position; nothing else about withdrawals changed.
    pub open spec fn queued(&self, old: &Self, borrower: AccountId, entry: QueuedWithdrawal) -> bool {
        &&& self.withdrawal_queues@.contains_key(borrower.0)
        &&& self.withdrawal_queues@.remove(borrower.0) == old.withdrawal_queues@.remove(borrower.0)
        &&& self.queue_of(borrower) == old.queue_of(borrower).insert(
            queue_position(old.queue_of(borrower), entry.priority_fee),
            entry,
        )
    }

    /// Takes `voucher`'s vouch out of `borrower`'s vouches, or lowers it by
    /// `amount` when less than the whole stake is withdrawn, and returns the
    /// stake's token.
    fn release_stake(&mut self, voucher: AccountId, borrower: AccountId, k: usize, amount: i128) -> (token:
        AccountId)
        requires
            old(self).wf(),
            k == first_vouch_by(old(self).vouches_of(borrower), voucher),
            k < old(self).vouches_of(borrower).len(),
            0 < amount <= old(self).vouch_of(voucher, borrower).stake,
        ensures
            final(self).wf(),
            token == old(self).vouch_of(voucher, borrower).token,
            ({
                let v = old(self).vouch_of(voucher, borrower);
                let vs = old(self).vouches_of(borrower);
                final(self).vouches_now(
                    old(self),
                    borrower,
                    if amount == v.stake {
                        vs.remove(k as int)
                    } else {
                        vs.update(k as int, VouchRecord { stake: (v.stake - amount) as i128, ..v })
                    },
                )
            }),
            final(self).withdrawal_queues@ == old(self).withdrawal_queues@,
            final(self).outbox@ == old(self).outbox@,
            final(self).same_loans_and_config(old(self)),
    {
        let mut vouches = self.vouches.remove(&borrower.0).unwrap();
        assert(vouches@ == old(self).vouches_of(borrower));
        let ghost vs = vouches@;
        let mut record = vouches.remove(k);
        let token = record.token;
        let ghost v = record;
        if amount < record.stake {
            proof {
                lemma_total_update(vs, k as int, VouchRecord { stake: (v.stake - amount) as i128, ..v });
            }
            record.stake = record.stake - amount;
            vouches.insert(k, record);
            assert(vouches@ =~= vs.update(k as int, VouchRecord { stake: (v.stake - amount) as i128, ..v }));
        } else {
            proof {
                lemma_total_remove(vs, k as int);
            }
        }
        self.vouches.insert(borrower.0, vouches);
        assert(self.vouches@.remove(borrower.0) =~= old(self).vouches@.remove(borrower.0));
        token
    }

    /// The outcome of the checks of `decrease_stake`, in the order they are made.
    pub open spec fn decrease_check(&self, voucher: AccountId, borrower: AccountId, amount: i128) -> Result<(), ContractError> {
        if self.paused {
            Err(ContractError::ContractPaused)
        } else if amount <= 0 {
            Err(ContractError::InvalidAmount)
        } else if !vouched_by(self.vouches_of(borrower), voucher) {
            Err(ContractError::VoucherNotFound)
        } else if amount > self.vouch_of(voucher, borrower).stake {
            Err(ContractError::InsufficientFunds)
        } else {
            Ok(())
        }
    }

    /// Lowers `voucher`'s stake for `borrower` by `amount` at ledger time
    /// `now`.  While the borrower has an active loan the withdrawal is queued
    /// instead; otherwise the amount is returned to the voucher, and a stake
    /// lowered to nothing removes the vouch.
    pub fn decrease_stake(&mut self, now: u64, voucher: AccountId, borrower: AccountId, amount: i128) -> (r:
        Result<(), ContractError>)
        requires
            old(self).wf(),
        ensures
            final(self).wf(),
            r == old(self).decrease_check(voucher, borrower, amount),
            r is Err ==> *final(self) == *old(self),
            r is Ok ==> {
                let k = first_vouch_by(old(self).vouches_of(borrower), voucher);
                let v = old(self).vouch_of(voucher, borrower);
                let vs = old(self).vouches_of(borrower);
                &&& old(self).has_active(borrower) ==> {
                    &&& final(self).queued(
                        old(self),
                        borrower,
                        QueuedWithdrawal { voucher, amount, priority_fee: 0, requested_at: now },
                    )
                    &&& final(self).vouches@ == old(self).vouches@
                    &&& final(self).outbox@ == old(self).outbox@
                }
                &&& !old(self).has_active(borrower) ==> {
                    &&& final(self).vouches_now(
                        old(self),
                        borrower,
                        if amount == v.stake {
                            vs.remove(k)
                        } else {
                            vs.update(k, VouchRecord { stake: (v.stake - amount) as i128, ..v })
                        },
                    )
                    &&& final(self).withdrawal_queues@ == old(self).withdrawal_queues@
                    &&& final(self).outbox@ == old(self).outbox@.push(
                        transfer(v.token, old(self).address, voucher, amount as int),
                    )
                }
                &&& final(self).same_loans_and_config(old(self))
            },
    {
        require_not_paused(self)?;
        if amount <= 0 {
            return Err(ContractError::InvalidAmount);
        }
        let k = match self.vouches.get(&borrower.0) {
            Some(v) => match find_vouch(v, voucher) {
                Some(k) => {
                    if amount > v[k].stake {
                        return Err(ContractError::InsufficientFunds);
                    }
                    k
                },
                None => return Err(ContractError::VoucherNotFound),
            },
            None => return Err(ContractError::VoucherNotFound),
        };
        if has_active_loan(self, borrower) {
            self.enqueue_withdrawal(
                borrower,
                QueuedWithdrawal { voucher, amount, priority_fee: 0, requested_at: now },
            );
        } else {
            let token = self.release_stake(voucher, borrower, k, amount);
            let contract = self.address;
            self.outbox.push(Effect::Transfer { token, from: contract, to: voucher, amount });
        }
        Ok(())
    }

    /// The outcome of the checks of `withdraw_vouch`, in the order they are made.
    pub open spec fn withdraw_check(&self, voucher: AccountId, borrower: AccountId) -> Result<(), ContractError> {
        if self.paused {
            Err(ContractError::ContractPaused)
        } else if !vouched_by(self.vouches_of(borrower), voucher) {
            Err(ContractError::VoucherNotFound)
        } else {
            Ok(())
        }
    }

    /// Withdraws `voucher`'s whole vouch for `borrower` at ledger time `now`.
    /// While the borrower has an active loan the withdrawal is queued instead;
    /// otherwise the vouch is removed and its stake returned.
    pub fn withdraw_vouch(&mut self, now: u64, voucher: AccountId, borrower: AccountId) -> (r: Result<
        (),
        ContractError,
    >)
        requires
            old(self).wf(),
        ensures
            final(self).wf(),
            r == old(self).withdraw_check(voucher, borrower),
            r is Err ==> *final(self) == *old(self),
            r is Ok ==> {
                let k = first_vouch_by(old(self).vouches_of(borrower), voucher);
                let v = old(self).vouch_of(voucher, borrower);
                &&& old(self).has_active(borrower) ==> {
                    &&& final(self).queued(
                        old(self),
                        borrower,
                        QueuedWithdrawal { voucher, amount: v.stake, priority_fee: 0, requested_at: now },
                    )
                    &&& final(self).vouches@ == old(self).vouches@
                    &&& final(self).outbox@ == old(self).outbox@
                }
                &&& !old(self).has_active(borrower) ==> {
                    &&& final(self).vouches_now(old(self), borrower, old(self).vouches_of(borrower).remove(k))
                    &&& final(self).withdrawal_queues@ == old(self).withdrawal_queues@
                    &&& final(self).outbox@ == old(self).outbox@.push(
                        transfer(v.token, old(self).address, voucher, v.stake as int),
                    )
                }
                &&& final(self).same_loans_and_config(old(self))
            },
    {
        require_not_paused(self)?;
        let (k, stake) = match self.vouches.get(&borrower.0) {
            Some(v) => match find_vouch(v, voucher) {
                Some(k) => (k, v[k].stake),
                None => return Err(ContractError::VoucherNotFound),
            },
            None => return Err(ContractError::VoucherNotFound),
        };
        assert(stake > 0) by {
            assert(old(self).vouches@.contains_key(borrower.0));
            assert(old(self).vouches_of(borrower)[k as int].stake > 0);
        }
        if has_active_loan(self, borrower) {
            self.enqueue_withdrawal(
                borrower,
                QueuedWithdrawal { voucher, amount: stake, priority_fee: 0, requested_at: now },
            );
        } else {
            let token = self.release_stake(voucher, borrower, k, stake);
            let contract = self.address;
            self.outbox.push(Effect::Transfer { token, from: contract, to: voucher, amount: stake });
        }
        Ok(())
    }

    /// The outcome of the checks of `request_withdrawal`, in the order they are made.
    pub open spec fn request_withdrawal_check(
        &self,
        voucher: AccountId,
        borrower: AccountId,
        priority_fee: i128,
    ) -> Result<(), ContractError> {
        if self.paused {
            Err(ContractError::ContractPaused)
        } else if priority_fee < 0 {
            Err(ContractError::InvalidAmount)
        } else if !vouched_by(self.vouches_of(borrower), voucher) {
            Err(ContractError::VoucherNotFound)
        } else if !self.has_active(borrower) {
            Err(ContractError::NoActiveLoan)
        } else {
            Ok(())
        }
    }

    /// Queues the withdrawal of `voucher`'s whole stake while `borrower`'s
    /// loan is active, at ledger time `now`.  A positive `priority_fee`, paid
    /// to the contract, places the request before requests paying less.  The
    /// queue is cleared when the loan is repaid, as repayment returns every
    /// stake.
    pub fn request_withdrawal(
        &mut self,
        now: u64,
        voucher: AccountId,
        borrower: AccountId,
        priority_fee: i128,
    ) -> (r: Result<(), ContractError>)
        requires
            old(self).wf(),
        ensures
            final(self).wf(),
            r == old(self).request_withdrawal_check(voucher, borrower, priority_fee),
            r is Err ==> *final(self) == *old(self),
            r is Ok ==> {
                let v = old(self).vouch_of(voucher, borrower);
                &&& final(self).queued(
                    old(self),
                    borrower,
                    QueuedWithdrawal { voucher, amount: v.stake, priority_fee, requested_at: now },
                )
                &&& final(self).vouches@ == old(self).vouches@
                &&& final(self).outbox@ == (if priority_fee > 0 {
                    old(self).outbox@.push(transfer(v.token, voucher, old(self).address, priority_fee as int))
                } else {
                    old(self).outbox@
                })
                &&& final(self).same_loans_and_config(old(self))
            },
    {
        require_not_paused(self)?;
        if priority_fee < 0 {
            return Err(ContractError::InvalidAmount);
        }
        let (stake, token) = match self.vouches.get(&borrower.0) {
            Some(v) => match find_vouch(v, voucher) {
                Some(k) => (v[k].stake, v[k].token),
                None => return Err(ContractError::VoucherNotFound),
            },
            None => return Err(ContractError::VoucherNotFound),
        };
        if !has_active_loan(self, borrower) {
            return Err(ContractError::NoActiveLoan);
        }
        self.enqueue_withdrawal(
            borrower,
            QueuedWithdrawal { voucher, amount: stake, priority_fee, requested_at: now },
        );
        if priority_fee > 0 {
            let contract = self.address;
            self.outbox.push(Effect::Transfer { token, from: voucher, to: contract, amount: priority_fee });
        }
        Ok(())
    }

    /// The withdrawals queued for `borrower`, in the order they will be served.
    pub fn get_withdrawal_queue(&self, borrower: AccountId) -> (r: Vec<QueuedWithdrawal>)
        ensures
            r@ == self.queue_of(borrower),
    {
        let mut out: Vec<QueuedWithdrawal> = Vec::new();
        match self.withdrawal_queues.get(&borrower.0) {
            Some(q) => {
                let n = q.len();
                for i in 0..n
                    invariant
                        n == q@.len(),
                        out@ == q@.take(i as int),
                {
                    out.push(q[i]);
                    assert(out@ =~= q@.take(i + 1));
                }
                assert(q@.take(n as int) =~= q@);
            },
            None => {},
        }
        out
    }
}

// ── Batch vouching ────────────────────────────────────────────────────────────

/// The vouches `vs` of a borrower after `old_vs`, with one new vouch by
/// `voucher` of `stake` in `token`, made at `now` without a sector.
pub open spec fn one_more_vouch(
    vs: Seq<VouchRecord>,
    old_vs: Seq<VouchRecord>,
    voucher: AccountId,
    stake: i128,
    token: AccountId,
    now: u64,
) -> bool {
    &&& vs.len() == old_vs.len() + 1
    &&& vs.drop_last() == old_vs
    &&& vs.last().voucher == voucher
    &&& vs.last().stake == stake
    &&& vs.last().vouch_timestamp == now
    &&& vs.last().token == token
    &&& vs.last().sector@ == Seq::<char>::empty()
}

/// `b` occurs among the first `i` entries of `borrowers`.
pub open spec fn listed_before(borrowers: Seq<AccountId>, b: AccountId, i: int) -> bool {
    exists|j: int| 0 <= j < i && #[trigger] borrowers[j] == b
}

/// The transfers of the first `n` stakes of a batch.
pub open spec fn batch_transfers(
    voucher: AccountId,
    stakes: Seq<i128>,
    token: AccountId,
    contract: AccountId,
    n: int,
) -> Seq<Effect> {
    Seq::new(n as nat, |j: int| transfer(token, voucher, contract, stakes[j] as int))
}

impl QuorumCreditContract {
    /// The check of entry `i` of a batch, as `vouch` would make it after the
    /// earlier entries were applied.
    pub open spec fn batch_item_check(
        &self,
        voucher: AccountId,
        borrowers: Seq<AccountId>,
        stakes: Seq<i128>,
        token: AccountId,
        i: int,
    ) -> Result<(), ContractError> {
        let b = borrowers[i];
        let vs = self.vouches_of(b);
        let cfg = self.config->0;
        if self.paused {
            Err(ContractError::ContractPaused)
        } else if stakes[i] <= 0 {
            Err(ContractError::InvalidAmount)
        } else if voucher == b {
            Err(ContractError::SelfVouchNotAllowed)
        } else if !token_allowed(cfg, token) {
            Err(ContractError::InvalidToken)
        } else if vouched_by(vs, voucher) || listed_before(borrowers, b, i) {
            Err(ContractError::DuplicateVouch)
        } else if vs.len() >= cfg.max_vouchers {
            Err(ContractError::MaxVouchersPerBorrowerExceeded)
        } else if total_staked(vs) + stakes[i] > MAX_BORROWER_STAKE {
            Err(ContractError::StakeOverflow)
        } else {
            Ok(())
        }
    }

    /// The outcome of the checks of the first `n` entries of a batch: the
    /// error of the first entry refused, if any.
    pub open spec fn batch_prefix_check(
        &self,
        voucher: AccountId,
        borrowers: Seq<AccountId>,
        stakes: Seq<i128>,
        token: AccountId,
        n: int,
    ) -> Result<(), ContractError>
        decreases n,
    {
        if n <= 0 {
            Ok(())
        } else {
            match self.batch_prefix_check(voucher, borrowers, stakes, token, n - 1) {
                Err(e) => Err(e),
                Ok(()) => self.batch_item_check(voucher, borrowers, stakes, token, n - 1),
            }
        }
    }

    /// The outcome of `batch_vouch`.
    pub open spec fn batch_check(
        &self,
        voucher: AccountId,
        borrowers: Seq<AccountId>,
        stakes: Seq<i128>,
        token: AccountId,
    ) -> Result<(), ContractError> {
        if borrowers.len() != stakes.len() {
            Err(ContractError::PoolLengthMismatch)
        } else {
            self.batch_prefix_check(voucher, borrowers, stakes, token, borrowers.len() as int)
        }
    }

    /// Vouches for every borrower in `borrowers` with the matching stake in
    /// `stakes`, all in `token`, at ledger time `now`.  The batch is atomic:
    /// when an entry is refused, as `vouch` would refuse it after the earlier
    /// entries, nothing changes and that entry's error is returned.  The two
    /// lists must have equal lengths.
    pub fn batch_vouch(
        &mut self,
        now: u64,
        voucher: AccountId,
        borrowers: &Vec<AccountId>,
        stakes: &Vec<i128>,
        token: AccountId,
    ) -> (r: Result<(), ContractError>)
        requires
            old(self).wf(),
            old(self).config is Some,
        ensures
            final(self).wf(),
            r == old(self).batch_check(voucher, borrowers@, stakes@, token),
            r is Err ==> *final(self) == *old(self),
            r is Ok ==> {
                &&& forall|j: int|
                    0 <= j < borrowers@.len() ==> one_more_vouch(
                        final(self).vouches_of(#[trigger] borrowers@[j]),
                        old(self).vouches_of(borrowers@[j]),
                        voucher,
                        stakes@[j],
                        token,
                        now,
                    )
                &&& forall|b: AccountId|
                    !borrowers@.contains(b) ==> #[trigger] final(self).vouches_of(b)
                        == old(self).vouches_of(b)
                &&& final(self).withdrawal_queues@ == old(self).withdrawal_queues@
                &&& final(self).outbox@ == old(self).outbox@ + batch_transfers(
                    voucher,
                    stakes@,
                    token,
                    old(self).address,
                    stakes@.len() as int,
                )
                &&& final(self).same_loans_and_config(old(self))
            },
    {
        let n = borrowers.len();
        if n != stakes.len() {
            return Err(ContractError::PoolLengthMismatch);
        }
        // Check every entry before changing anything.
        for i in 0..n
            invariant
                n == borrowers@.len(),
                n == stakes@.len(),
                *self == *old(self),
                self.wf(),
                self.config is Some,
                self.batch_prefix_check(voucher, borrowers@, stakes@, token, i as int) is Ok,
        {
            let b = borrowers[i];
            let mut earlier = false;
            for j in 0..i
                invariant
                    i < n,
                    n == borrowers@.len(),
                    b == borrowers@[i as int],
                    earlier == listed_before(borrowers@, b, j as int),
            {
                if borrowers[j] == b {
                    earlier = true;
                }
            }
            let r = self.check_batch_entry(voucher, b, stakes[i], token, earlier);
            assert(r == self.batch_item_check(voucher, borrowers@, stakes@, token, i as int));
            if let Err(e) = r {
                proof {
                    self.lemma_batch_prefix_err(voucher, borrowers@, stakes@, token, i + 1, n as int, e);
                }
                return Err(e);
            }
        }
        assert(self.batch_prefix_check(voucher, borrowers@, stakes@, token, n as int) is Ok);
        let ghost init = *self;
        for i in 0..n
            invariant
                n == borrowers@.len(),
                n == stakes@.len(),
                init == *old(self),
                self.wf(),
                self.config is Some,
                init.batch_prefix_check(voucher, borrowers@, stakes@, token, n as int) is Ok,
                forall|j: int|
                    0 <= j < i ==> one_more_vouch(
                        self.vouches_of(#[trigger] borrowers@[j]),
                        init.vouches_of(borrowers@[j]),
                        voucher,
                        stakes@[j],
                        token,
                        now,
                    ),
                forall|b: AccountId|
                    !listed_before(borrowers@, b, i as int) ==> #[trigger] self.vouches_of(b)
                        == init.vouches_of(b),
                forall|k: u64|
                    #![trigger self.vouches@.contains_key(k)]
                    init.vouches@.contains_key(k) ==> self.vouches@.contains_key(k),
                self.withdrawal_queues@ == init.withdrawal_queues@,
                self.outbox@ == init.outbox@ + batch_transfers(
                    voucher,
                    stakes@,
                    token,
                    init.address,
                    i as int,
                ),
                self.same_loans_and_config(&init),
        {
            let b = borrowers[i];
            proof {
                init.lemma_batch_prefix_ok(voucher, borrowers@, stakes@, token, n as int, i as int);
                assert(!listed_before(borrowers@, b, i as int));
                assert(self.vouches_of(b) == init.vouches_of(b));
            }
            let ghost before = *self;
            let r = self.vouch(now, voucher, b, stakes[i], token);
            assert(r is Ok);
            proof {
                assert forall|bb: AccountId|
                    !listed_before(borrowers@, bb, i + 1) implies #[trigger] self.vouches_of(bb)
                    == init.vouches_of(bb) by {
                    assert(bb != b) by {
                        if bb == b {
                            assert(borrowers@[i as int] == bb);
                        }
                    }
                    assert(bb.0 != b.0);
                    assert(!listed_before(borrowers@, bb, i as int)) by {
                        if listed_before(borrowers@, bb, i as int) {
                            let w = choose|w: int| 0 <= w < i && #[trigger] borrowers@[w] == bb;
                            assert(0 <= w < i + 1 && borrowers@[w] == bb);
                        }
                    }
                    assert(before.vouches_of(bb) == init.vouches_of(bb));
                    assert(self.vouches@.remove(b.0).contains_key(bb.0) == self.vouches@.contains_key(bb.0));
                    assert(before.vouches@.remove(b.0).contains_key(bb.0) == before.vouches@.contains_key(
                        bb.0,
                    ));
                    if self.vouches@.contains_key(bb.0) {
                        assert(self.vouches@[bb.0] == self.vouches@.remove(b.0)[bb.0]);
                        assert(before.vouches@[bb.0] == before.vouches@.remove(b.0)[bb.0]);
                    }
                }
                assert forall|j: int| 0 <= j < i + 1 implies one_more_vouch(
                    self.vouches_of(#[trigger] borrowers@[j]),
                    init.vouches_of(borrowers@[j]),
                    voucher,
                    stakes@[j],
                    token,
                    now,
                ) by {
                    if j < i {
                        let bj = borrowers@[j];
                        assert(bj != b) by {
                            assert(listed_before(borrowers@, bj, i as int));
                            assert(!listed_before(borrowers@, b, i as int));
                        }
                        assert(bj.0 != b.0);
                        assert(before.vouches@.contains_key(bj.0)) by {
                            assert(init.vouches_of(bj).len() + 1 == before.vouches_of(bj).len());
                        }
                        assert(before.vouches@.remove(b.0).contains_key(bj.0));
                        assert(self.vouches@.remove(b.0)[bj.0] == before.vouches@.remove(b.0)[bj.0]);
                    }
                }
                assert forall|k: u64|
                    #![trigger self.vouches@.contains_key(k)]
                    init.vouches@.contains_key(k) implies self.vouches@.contains_key(k) by {
                    if k != b.0 {
                        assert(before.vouches@.remove(b.0).contains_key(k));
                    }
                }
                assert(self.outbox@ =~= init.outbox@ + batch_transfers(
                    voucher,
                    stakes@,
                    token,
                    init.address,
                    i + 1,
                ));
            }
        }
        proof {
            assert forall|b: AccountId| !borrowers@.contains(b) implies #[trigger] self.vouches_of(b)
                == old(self).vouches_of(b) by {
                assert(!listed_before(borrowers@, b, n as int));
            }
        }
        Ok(())
    }

    /// The batch entry check for borrower `b` with `stake`, `earlier` telling
    /// whether `b` occurred earlier in the batch.
    fn check_batch_entry(&self, voucher: AccountId, b: AccountId, stake: i128, token: AccountId, earlier: bool) -> (r:
        Result<(), ContractError>)
        requires
            self.wf(),
            self.config is Some,
        ensures
            forall|borrowers: Seq<AccountId>, stakes: Seq<i128>, i: int|
                0 <= i < borrowers.len() && i < stakes.len() && borrowers[i] == b && stakes[i] == stake
                    && earlier == listed_before(borrowers, b, i) ==> r
                    == #[trigger] self.batch_item_check(voucher, borrowers, stakes, token, i),
    {
        require_not_paused(self)?;
        if stake <= 0 {
            return Err(ContractError::InvalidAmount);
        }
        if voucher == b {
            return Err(ContractError::SelfVouchNotAllowed);
        }
        require_allowed_token(self, token)?;
        let max_vouchers = crate::helpers::config(self).max_vouchers;
        match self.vouches.get(&b.0) {
            Some(v) => {
                if has_vouch_by(v, voucher) || earlier {
                    return Err(ContractError::DuplicateVouch);
                }
                if (v.len() as u64) >= (max_vouchers as u64) {
                    return Err(ContractError::MaxVouchersPerBorrowerExceeded);
                }
                let total = crate::lending::sum_all_stake(v);
                if total > MAX_BORROWER_STAKE - stake {
                    return Err(ContractError::StakeOverflow);
                }
            },
            None => {
                if earlier {
                    return Err(ContractError::DuplicateVouch);
                }
                if max_vouchers == 0 {
                    return Err(ContractError::MaxVouchersPerBorrowerExceeded);
                }
                if stake > MAX_BORROWER_STAKE {
                    return Err(ContractError::StakeOverflow);
                }
            },
        }
        Ok(())
    }

    /// Once an entry of a batch is refused, the batch is refused with its error.
    proof fn lemma_batch_prefix_err(
        &self,
        voucher: AccountId,
        borrowers: Seq<AccountId>,
        stakes: Seq<i128>,
        token: AccountId,
        m: int,
        n: int,
        e: ContractError,
    )
        requires
            0 <= m <= n,
            self.batch_prefix_check(voucher, borrowers, stakes, token, m) == Err::<(), ContractError>(e),
        ensures
            self.batch_prefix_check(voucher, borrowers, stakes, token, n) == Err::<(), ContractError>(e),
        decreases n - m,
    {
        if m < n {
            self.lemma_batch_prefix_err(voucher, borrowers, stakes, token, m + 1, n, e);
        }
    }

    /// When the checks of the first `n` entries pass, so does the check of
    /// every entry before `n`.
    proof fn lemma_batch_prefix_ok(
        &self,
        voucher: AccountId,
        borrowers: Seq<AccountId>,
        stakes: Seq<i128>,
        token: AccountId,
        n: int,
        i: int,
    )
        requires
            0 <= i < n,
            self.batch_prefix_check(voucher, borrowers, stakes, token, n) is Ok,
        ensures
            self.batch_item_check(voucher, borrowers, stakes, token, i) is Ok,
        decreases n,
    {
        if i < n - 1 {
            self.lemma_batch_prefix_ok(voucher, borrowers, stakes, token, n - 1, i);
        }
    }
}

// ── Partial withdrawal ────────────────────────────────────────────────────────

/// Share of the partial-withdrawal penalty, in percent of the amount withdrawn.
pub const PARTIAL_WITHDRAW_PENALTY_PERCENT: i128 = 10;

/// Number of vouches in `vs`, other than the one at `k`, denominated in `token`.
pub open spec fn others_in_token(vs: Seq<VouchRecord>, k: int, token: AccountId) -> int
    decreases vs.len(),
{
    if vs.len() == 0 {
        0
    } else {
        others_in_token(vs.drop_last(), k, token) + (if vs.len() - 1 != k && vs.last().token
            == token {
            1int
        } else {
            0
        })
    }
}

/// Vouch `r`, at position `j`, after the vouch at `k` withdrew `withdrawn`
/// and every other vouch in `token` received `share`.
pub open spec fn redistributed(r: VouchRecord, j: int, k: int, token: AccountId, withdrawn: int, share: int) -> VouchRecord {
    if j == k {
        VouchRecord { stake: (r.stake - withdrawn) as i128, ..r }
    } else if r.token == token {
        VouchRecord { stake: (r.stake + share) as i128, ..r }
    } else {
        r
    }
}

pub open spec fn redistribute(vs: Seq<VouchRecord>, k: int, token: AccountId, withdrawn: int, share: int) -> Seq<VouchRecord> {
    Seq::new(vs.len(), |j: int| redistributed(vs[j], j, k, token, withdrawn, share))
}

pub proof fn lemma_redistribute_total(vs: Seq<VouchRecord>, k: int, token: AccountId, withdrawn: int, share: int)
    requires
        forall|j: int| 0 <= j < vs.len() ==> 0 < #[trigger] vs[j].stake <= MAX_BORROWER_STAKE,
        0 <= k,
        0 <= withdrawn <= MAX_BORROWER_STAKE,
        0 <= share <= MAX_BORROWER_STAKE,
    ensures
        total_staked(redistribute(vs, k, token, withdrawn, share)) == total_staked(vs) - (if k
            < vs.len() {
            withdrawn
        } else {
            0
        }) + share * others_in_token(vs, k, token),
    decreases vs.len(),
{
    if vs.len() > 0 {
        let d = vs.drop_last();
        let c = others_in_token(d, k, token);
        assert forall|j: int| 0 <= j < d.len() implies 0 < #[trigger] d[j].stake <= MAX_BORROWER_STAKE by {
            assert(d[j] == vs[j]);
        }
        assert(0 < vs[vs.len() - 1].stake <= MAX_BORROWER_STAKE);
        lemma_redistribute_total(d, k, token, withdrawn, share);
        assert(redistribute(vs, k, token, withdrawn, share).drop_last() =~= redistribute(
            d,
            k,
            token,
            withdrawn,
            share,
        ));
        assert(share * others_in_token(vs, k, token) == share * c + (if vs.len() - 1 != k
            && vs.last().token == token {
            share
        } else {
            0
        })) by (nonlinear_arith)
            requires
                others_in_token(vs, k, token) == c + (if vs.len() - 1 != k && vs.last().token
                    == token {
                    1int
                } else {
                    0
                }),
        ;
    }
}

pub proof fn lemma_others_nonneg(vs: Seq<VouchRecord>, k: int, token: AccountId)
    ensures
        0 <= others_in_token(vs, k, token) <= vs.len(),
    decreases vs.len(),
{
    if vs.len() > 0 {
        lemma_others_nonneg(vs.drop_last(), k, token);
    }
}

impl QuorumCreditContract {
    /// The outcome of the checks of `partial_withdraw`, in the order they are made.
    pub open spec fn partial_withdraw_check(&self, voucher: AccountId, borrower: AccountId) -> Result<(), ContractError> {
        if self.paused {
            Err(ContractError::ContractPaused)
        } else if !vouched_by(self.vouches_of(borrower), voucher) {
            Err(ContractError::VoucherNotFound)
        } else if !self.has_active(borrower) {
            Err(ContractError::NoActiveLoan)
        } else if self.vouch_of(voucher, borrower).stake / 2 == 0 {
            Err(ContractError::InvalidAmount)
        } else {
            Ok(())
        }
    }

    /// Withdraws half of `voucher`'s stake for `borrower` while the
    /// borrower's loan is active.  A penalty of 10% of the amount withdrawn
    /// is split equally among the other vouches in the same token (what does
    /// not divide evenly stays with the contract; with no other such vouch
    /// the whole penalty does), and the rest is paid to the voucher.
    pub fn partial_withdraw(&mut self, voucher: AccountId, borrower: AccountId) -> (r: Result<(), ContractError>)
        requires
            old(self).wf(),
        ensures
            final(self).wf(),
            r == old(self).partial_withdraw_check(voucher, borrower),
            r is Err ==> *final(self) == *old(self),
            r is Ok ==> {
                let vs = old(self).vouches_of(borrower);
                let k = first_vouch_by(vs, voucher);
                let v = vs[k];
                let withdrawn = v.stake / 2;
                let penalty = withdrawn / (PARTIAL_WITHDRAW_PENALTY_PERCENT as int);
                let others = others_in_token(vs, k, v.token);
                let share = if others > 0 { penalty / others } else { 0 };
                &&& final(self).vouches_now(
                    old(self),
                    borrower,
                    redistribute(vs, k, v.token, withdrawn, share),
                )
                &&& final(self).withdrawal_queues@ == old(self).withdrawal_queues@
                &&& final(self).outbox@ == old(self).outbox@.push(
                    transfer(v.token, old(self).address, voucher, withdrawn - penalty),
                )
                &&& final(self).same_loans_and_config(old(self))
            },
    {
        require_not_paused(self)?;
        let k = match self.vouches.get(&borrower.0) {
            Some(v) => match find_vouch(v, voucher) {
                Some(k) => k,
                None => return Err(ContractError::VoucherNotFound),
            },
            None => return Err(ContractError::VoucherNotFound),
        };
        if !has_active_loan(self, borrower) {
            return Err(ContractError::NoActiveLoan);
        }
        let (stake, token) = match self.vouches.get(&borrower.0) {
            Some(v) => (v[k].stake, v[k].token),
            None => return Err(ContractError::VoucherNotFound),
        };
        let withdrawn = stake / 2;
        if withdrawn == 0 {
            return Err(ContractError::InvalidAmount);
        }
        let vouches = self.vouches.remove(&borrower.0).unwrap();
        let ghost vs = vouches@;
        assert(vs == old(self).vouches_of(borrower));
        assert(stakes_bounded(vs));
        assert forall|j: int| 0 <= j < vs.len() implies 0 < #[trigger] vs[j].stake <= MAX_BORROWER_STAKE by {
            crate::stake::lemma_stake_le_total(vs, j);
        }
        let penalty = withdrawn / PARTIAL_WITHDRAW_PENALTY_PERCENT;
        // Count the other vouches in the same token.
        let n = vouches.len();
        let mut others: u64 = 0;
        for i in 0..n
            invariant
                n == vs.len(),
                vouches@ == vs,
                others == others_in_token(vs.take(i as int), k as int, token),
                others <= i,
        {
            assert(vs.take(i + 1).drop_last() =~= vs.take(i as int));
            if i != k && vouches[i].token == token {
                others = others + 1;
            }
        }
        assert(vs.take(n as int) =~= vs);
        let share: i128 = if others > 0 {
            penalty / (others as i128)
        } else {
            0
        };
        proof {
            lemma_others_nonneg(vs, k as int, token);
            assert(vs[k as int].stake > 0);
            assert(share * others <= withdrawn) by (nonlinear_arith)
                requires
                    others >= 0,
                    penalty >= 0,
                    penalty <= withdrawn,
                    others > 0 ==> share == (penalty as int) / (others as int),
                    others == 0 ==> share == 0,
            ;
            lemma_redistribute_total(vs, k as int, token, withdrawn as int, share as int);
        }
        let mut updated: Vec<VouchRecord> = Vec::new();
        for i in 0..n
            invariant
                n == vs.len(),
                vouches@ == vs,
                k < n,
                stakes_bounded(vs),
                forall|j: int| 0 <= j < vs.len() ==> 0 < #[trigger] vs[j].stake <= MAX_BORROWER_STAKE,
                0 < withdrawn < vs[k as int].stake,
                0 <= share <= withdrawn,
                updated@ == redistribute(vs, k as int, token, withdrawn as int, share as int).take(i as int),
        {
            let mut record = vouches[i].clone();
            assert(0 < vs[i as int].stake <= MAX_BORROWER_STAKE);
            if i == k {
                record.stake = record.stake - withdrawn;
            } else if record.token == token {
                record.stake = record.stake + share;
            }
            updated.push(record);
            assert(updated@ =~= redistribute(vs, k as int, token, withdrawn as int, share as int).take(i + 1));
        }
        assert(updated@ =~= redistribute(vs, k as int, token, withdrawn as int, share as int));
        self.vouches.insert(borrower.0, updated);
        let contract = self.address;
        self.outbox.push(Effect::Transfer { token, from: contract, to: voucher, amount: withdrawn - penalty });
        proof {
            assert(self.vouches@.remove(borrower.0) =~= old(self).vouches@.remove(borrower.0));
            let nv = redistribute(vs, k as int, token, withdrawn as int, share as int);
            assert forall|j: int| 0 <= j < nv.len() implies #[trigger] nv[j].stake > 0 by {
                assert(nv[j] == redistributed(vs[j], j, k as int, token, withdrawn as int, share as int));
                assert(0 < vs[j].stake <= MAX_BORROWER_STAKE);
            }
            assert(total_staked(nv) <= total_staked(vs));
        }
        Ok(())
    }
}

} // verus!
