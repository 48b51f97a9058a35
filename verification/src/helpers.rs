//! Guards shared by the contract's operations.

use vstd::prelude::*;

use crate::contract::QuorumCreditContract;
use crate::errors::ContractError;
use crate::types::{AccountId, Config, LoanRecord};

verus! {

broadcast use vstd::std_specs::hash::group_hash_axioms;

// ── Reentrancy guard ──────────────────────────────────────────────────────────

/// Acquires the reentrancy lock; refused with `Reentrancy` when it is held.
/// Must be paired with `release_lock` at the end of every guarded operation.
pub fn acquire_lock(contract: &mut QuorumCreditContract) -> (r: Result<(), ContractError>)
    ensures
        old(contract).locked ==> r == Err::<(), ContractError>(ContractError::Reentrancy)
            && *final(contract) == *old(contract),
        !old(contract).locked ==> r is Ok && final(contract).locked
            && final(contract).same_except_lock(old(contract)),
{
    if contract.locked {
        return Err(ContractError::Reentrancy);
    }
    contract.locked = true;
    Ok(())
}

/// Releases the reentrancy lock.
pub fn release_lock(contract: &mut QuorumCreditContract)
    ensures
        !final(contract).locked,
        final(contract).same_except_lock(old(contract)),
{
    contract.locked = false;
}

// ── Pause check ───────────────────────────────────────────────────────────────

pub fn require_not_paused(contract: &QuorumCreditContract) -> (r: Result<(), ContractError>)
    ensures
        r == (if contract.paused {
            Err(ContractError::ContractPaused)
        } else {
            Ok(())
        }),
{
    if contract.paused {
        Err(ContractError::ContractPaused)
    } else {
        Ok(())
    }
}

// ── Input validation ──────────────────────────────────────────────────────────

/// Every address is valid; kept as the single place for future address
/// checks.
pub fn validate_address(contract: &QuorumCreditContract, address: AccountId) -> (r: Result<
    (),
    ContractError,
>)
    ensures
        r is Ok,
{
    Ok(())
}

/// Refused with `InvalidAmount` unless `amount` is strictly positive.
pub fn validate_amount(contract: &QuorumCreditContract, amount: i128) -> (r: Result<(), ContractError>)
    ensures
        r == (if amount <= 0 {
            Err(ContractError::InvalidAmount)
        } else {
            Ok(())
        }),
{
    if amount <= 0 {
        return Err(ContractError::InvalidAmount);
    }
    Ok(())
}

/// Refused with `InvalidAmount` when `timestamp` is zero or not after `now`.
pub fn validate_timestamp(contract: &QuorumCreditContract, timestamp: u64, now: u64) -> (r: Result<
    (),
    ContractError,
>)
    ensures
        r == (if timestamp == 0 || timestamp <= now {
            Err(ContractError::InvalidAmount)
        } else {
            Ok(())
        }),
{
    if timestamp == 0 || timestamp <= now {
        return Err(ContractError::InvalidAmount);
    }
    Ok(())
}

/// Refused with `InsufficientFunds` unless `amount` is strictly positive.
pub fn require_positive_amount(contract: &QuorumCreditContract, amount: i128) -> (r: Result<
    (),
    ContractError,
>)
    ensures
        r == (if amount <= 0 {
            Err(ContractError::InsufficientFunds)
        } else {
            Ok(())
        }),
{
    match validate_amount(contract, amount) {
        Ok(()) => Ok(()),
        Err(_) => Err(ContractError::InsufficientFunds),
    }
}

// ── Config and loan lookups ───────────────────────────────────────────────────

/// The stored configuration; the contract must be initialized.
pub fn config(contract: &QuorumCreditContract) -> (c: &Config)
    requires
        contract.config is Some,
    ensures
        *c == contract.config->0,
{
    contract.config.as_ref().unwrap()
}

/// `borrower`'s active-loan entry points to a loan whose status is `Active`.
pub fn has_active_loan(contract: &QuorumCreditContract, borrower: AccountId) -> (r: bool)
    ensures
        r == contract.has_active(borrower),
{
    match get_active_loan_record(contract, borrower) {
        Ok(loan) => match loan.status {
            crate::types::LoanStatus::Active => true,
            _ => false,
        },
        Err(_) => false,
    }
}

/// The loan that `borrower`'s active-loan entry points to; refused with
/// `NoActiveLoan` when the entry or the loan is missing.
pub fn get_active_loan_record(contract: &QuorumCreditContract, borrower: AccountId) -> (r: Result<
    &LoanRecord,
    ContractError,
>)
    ensures
        match r {
            Ok(l) => contract.active_record(borrower) == Some(*l),
            Err(e) => contract.active_record(borrower) is None && e == ContractError::NoActiveLoan,
        },
{
    let loan_id = match contract.active_loans.get(&borrower.0) {
        Some(id) => *id,
        None => return Err(ContractError::NoActiveLoan),
    };
    match contract.loans.get(&loan_id) {
        Some(loan) => Ok(loan),
        None => Err(ContractError::NoActiveLoan),
    }
}

/// `token` is the primary token or one of the additional allowed tokens.
pub open spec fn token_allowed(cfg: Config, token: AccountId) -> bool {
    cfg.token == token || cfg.allowed_tokens@.contains(token)
}

/// The token to use for `addr` once it is checked to be an allowed token;
/// refused with `InvalidToken` otherwise.
pub fn require_allowed_token(contract: &QuorumCreditContract, addr: AccountId) -> (r: Result<
    AccountId,
    ContractError,
>)
    requires
        contract.config is Some,
    ensures
        r == (if token_allowed(contract.config->0, addr) {
            Ok(addr)
        } else {
            Err(ContractError::InvalidToken)
        }),
{
    let cfg = config(contract);
    if addr == cfg.token {
        return Ok(addr);
    }
    let n = cfg.allowed_tokens.len();
    for i in 0..n
        invariant
            n == cfg.allowed_tokens@.len(),
            *cfg == contract.config->0,
            forall|j: int| 0 <= j < i ==> cfg.allowed_tokens@[j] != addr,
    {
        if cfg.allowed_tokens[i] == addr {
            assert(cfg.allowed_tokens@[i as int] == addr);
            return Ok(addr);
        }
    }
    Err(ContractError::InvalidToken)
}

/// No account occurs twice in `s`.
pub open spec fn distinct(s: Seq<AccountId>) -> bool {
    forall|i: int, j: int| 0 <= i < j < s.len() ==> s[i] != s[j]
}

/// What admin approval by `signers` comes to: every signer must be a
/// distinct admin, and there must be at least the configured threshold of
/// them.
pub open spec fn admin_approval(cfg: Config, signers: Seq<AccountId>) -> Result<(), ContractError> {
    if !(forall|i: int| 0 <= i < signers.len() ==> cfg.admins@.contains(#[trigger] signers[i]))
        || !distinct(signers) {
        Err(ContractError::UnauthorizedCaller)
    } else if signers.len() < cfg.admin_threshold {
        Err(ContractError::QuorumNotMet)
    } else {
        Ok(())
    }
}

/// Checks that `signers` approve an administrative action.  The host has
/// already required each signer's authorization.
pub fn require_admin_approval(contract: &QuorumCreditContract, signers: &Vec<AccountId>) -> (r:
    Result<(), ContractError>)
    requires
        contract.config is Some,
    ensures
        r == admin_approval(contract.config->0, signers@),
{
    let cfg = config(contract);
    let n = signers.len();
    for i in 0..n
        invariant
            n == signers@.len(),
            *cfg == contract.config->0,
            forall|k: int| 0 <= k < i ==> cfg.admins@.contains(#[trigger] signers@[k]),
            forall|a: int, b: int| 0 <= a < b < i ==> signers@[a] != signers@[b],
    {
        let s = signers[i];
        let m = cfg.admins.len();
        let mut found = false;
        for j in 0..m
            invariant
                m == cfg.admins@.len(),
                found ==> cfg.admins@.contains(s),
                !found ==> forall|jj: int| 0 <= jj < j ==> cfg.admins@[jj] != s,
        {
            if cfg.admins[j] == s {
                assert(cfg.admins@[j as int] == s);
                found = true;
            }
        }
        if !found {
            assert(!cfg.admins@.contains(signers@[i as int]));
            return Err(ContractError::UnauthorizedCaller);
        }
        for k in 0..i
            invariant
                n == signers@.len(),
                i < n,
                s == signers@[i as int],
                forall|a: int| 0 <= a < k ==> signers@[a] != s,
        {
            if signers[k] == s {
                assert(signers@[k as int] == signers@[i as int]);
                return Err(ContractError::UnauthorizedCaller);
            }
        }
    }
    if (n as u64) < (cfg.admin_threshold as u64) {
        return Err(ContractError::QuorumNotMet);
    }
    Ok(())
}

} // verus!
