use quorum_credit::contract::{Effect, QuorumCreditContract};
use quorum_credit::errors::ContractError;
use quorum_credit::types::{AccountId, QueuedWithdrawal};

const CONTRACT: AccountId = AccountId(1000);
const ADMIN: AccountId = AccountId(901);
const TOKEN: AccountId = AccountId(50);
const BORROWER: AccountId = AccountId(1);
const V1: AccountId = AccountId(11);
const V2: AccountId = AccountId(12);
const V3: AccountId = AccountId(13);

fn initialized() -> QuorumCreditContract {
    let mut c = QuorumCreditContract::new(CONTRACT);
    c.initialize(AccountId(900), vec![ADMIN], 1, TOKEN).unwrap();
    c
}

fn two_vouches() -> QuorumCreditContract {
    let mut c = initialized();
    c.vouch_with_sector(100, V1, BORROWER, 600_000, TOKEN, "farming".to_string()).unwrap();
    c.vouch_with_sector(100, V2, BORROWER, 600_000, TOKEN, "retail".to_string()).unwrap();
    c
}

fn two_vouches_and_loan() -> QuorumCreditContract {
    let mut c = two_vouches();
    c.request_loan(200, BORROWER, 1_000_000, 0, "x".to_string(), TOKEN).unwrap();
    c
}

#[test]
fn vouch_records_stake_and_takes_transfer() {
    let mut c = initialized();
    c.vouch(100, V1, BORROWER, 500, TOKEN).unwrap();
    let vs = c.get_vouches(BORROWER);
    assert_eq!(vs.len(), 1);
    assert_eq!(vs[0].voucher, V1);
    assert_eq!(vs[0].stake, 500);
    assert_eq!(vs[0].vouch_timestamp, 100);
    assert_eq!(vs[0].sector, "");
    assert!(c.vouch_exists(V1, BORROWER));
    assert!(!c.vouch_exists(V2, BORROWER));
    assert_eq!(c.outbox, vec![Effect::Transfer { token: TOKEN, from: V1, to: CONTRACT, amount: 500 }]);
}

#[test]
fn vouch_errors() {
    let mut c = initialized();
    assert_eq!(c.vouch(100, V1, BORROWER, 0, TOKEN), Err(ContractError::InvalidAmount));
    assert_eq!(c.vouch(100, BORROWER, BORROWER, 5, TOKEN), Err(ContractError::SelfVouchNotAllowed));
    assert_eq!(c.vouch(100, V1, BORROWER, 5, AccountId(77)), Err(ContractError::InvalidToken));
    c.vouch(100, V1, BORROWER, 5, TOKEN).unwrap();
    assert_eq!(c.vouch(100, V1, BORROWER, 5, TOKEN), Err(ContractError::DuplicateVouch));
    c.paused = true;
    assert_eq!(c.vouch(100, V2, BORROWER, 5, TOKEN), Err(ContractError::ContractPaused));
}

#[test]
fn increase_stake_adds() {
    let mut c = two_vouches();
    c.increase_stake(V1, BORROWER, 100).unwrap();
    assert_eq!(c.get_vouches(BORROWER)[0].stake, 600_100);
    assert_eq!(c.increase_stake(V3, BORROWER, 100), Err(ContractError::VoucherNotFound));
    assert_eq!(c.increase_stake(V1, BORROWER, 0), Err(ContractError::InvalidAmount));
}

#[test]
fn decrease_stake_returns_funds() {
    let mut c = two_vouches();
    c.decrease_stake(300, V1, BORROWER, 100_000).unwrap();
    assert_eq!(c.get_vouches(BORROWER)[0].stake, 500_000);
    assert_eq!(
        c.outbox.last(),
        Some(&Effect::Transfer { token: TOKEN, from: CONTRACT, to: V1, amount: 100_000 })
    );
    assert_eq!(c.decrease_stake(300, V1, BORROWER, 500_001), Err(ContractError::InsufficientFunds));
    c.decrease_stake(300, V1, BORROWER, 500_000).unwrap();
    assert!(!c.vouch_exists(V1, BORROWER));
    assert_eq!(c.get_vouches(BORROWER).len(), 1);
}

#[test]
fn decrease_stake_queued_during_loan() {
    let mut c = two_vouches_and_loan();
    c.decrease_stake(300, V1, BORROWER, 100_000).unwrap();
    assert_eq!(c.get_vouches(BORROWER)[0].stake, 600_000);
    assert_eq!(
        c.get_withdrawal_queue(BORROWER),
        vec![QueuedWithdrawal { voucher: V1, amount: 100_000, priority_fee: 0, requested_at: 300 }]
    );
}

#[test]
fn withdraw_vouch_without_loan() {
    let mut c = two_vouches();
    c.withdraw_vouch(300, V2, BORROWER).unwrap();
    assert!(!c.vouch_exists(V2, BORROWER));
    assert_eq!(
        c.outbox.last(),
        Some(&Effect::Transfer { token: TOKEN, from: CONTRACT, to: V2, amount: 600_000 })
    );
    assert_eq!(c.withdraw_vouch(300, V2, BORROWER), Err(ContractError::VoucherNotFound));
}

#[test]
fn withdrawal_queue_orders_by_fee() {
    let mut c = initialized();
    c.vouch_with_sector(100, V1, BORROWER, 400_000, TOKEN, "a".to_string()).unwrap();
    c.vouch_with_sector(100, V2, BORROWER, 400_000, TOKEN, "b".to_string()).unwrap();
    c.vouch_with_sector(100, V3, BORROWER, 400_000, TOKEN, "c".to_string()).unwrap();
    assert_eq!(c.request_withdrawal(250, V1, BORROWER, 0), Err(ContractError::NoActiveLoan));
    c.request_loan(200, BORROWER, 1_000_000, 0, "x".to_string(), TOKEN).unwrap();
    c.request_withdrawal(300, V1, BORROWER, 5).unwrap();
    c.request_withdrawal(301, V2, BORROWER, 50).unwrap();
    c.request_withdrawal(302, V3, BORROWER, 5).unwrap();
    assert_eq!(c.request_withdrawal(303, V3, BORROWER, -1), Err(ContractError::InvalidAmount));
    let q = c.get_withdrawal_queue(BORROWER);
    let order: Vec<AccountId> = q.iter().map(|w| w.voucher).collect();
    assert_eq!(order, vec![V2, V1, V3]);
    assert_eq!(q[0].amount, 400_000);
    assert_eq!(
        c.outbox.last(),
        Some(&Effect::Transfer { token: TOKEN, from: V3, to: CONTRACT, amount: 5 })
    );
    c.repay(400, BORROWER, 1_020_000).unwrap();
    assert!(c.get_withdrawal_queue(BORROWER).is_empty());
}

#[test]
fn batch_vouch_all_or_nothing() {
    let mut c = initialized();
    let b2 = AccountId(2);
    let b3 = AccountId(3);
    assert_eq!(
        c.batch_vouch(100, V1, &vec![BORROWER, b2], &vec![10], TOKEN),
        Err(ContractError::PoolLengthMismatch)
    );
    assert_eq!(
        c.batch_vouch(100, V1, &vec![BORROWER, b2, BORROWER], &vec![10, 20, 30], TOKEN),
        Err(ContractError::DuplicateVouch)
    );
    assert_eq!(
        c.batch_vouch(100, V1, &vec![BORROWER, b2, b3], &vec![10, 0, 30], TOKEN),
        Err(ContractError::InvalidAmount)
    );
    assert!(c.get_vouches(BORROWER).is_empty());
    assert!(c.outbox.is_empty());
    c.batch_vouch(100, V1, &vec![BORROWER, b2, b3], &vec![10, 20, 30], TOKEN).unwrap();
    assert_eq!(c.get_vouches(b2)[0].stake, 20);
    assert_eq!(c.get_vouches(b3)[0].stake, 30);
    assert_eq!(c.outbox.len(), 3);
}

#[test]
fn partial_withdraw_splits_penalty() {
    let mut c = two_vouches_and_loan();
    let before = c.outbox.len();
    c.partial_withdraw(V1, BORROWER).unwrap();
    let vs = c.get_vouches(BORROWER);
    assert_eq!(vs[0].stake, 300_000);
    assert_eq!(vs[1].stake, 630_000);
    assert_eq!(
        &c.outbox[before..],
        &[Effect::Transfer { token: TOKEN, from: CONTRACT, to: V1, amount: 270_000 }]
    );
}

#[test]
fn partial_withdraw_needs_loan() {
    let mut c = two_vouches();
    assert_eq!(c.partial_withdraw(V1, BORROWER), Err(ContractError::NoActiveLoan));
    assert_eq!(c.partial_withdraw(V3, BORROWER), Err(ContractError::VoucherNotFound));
}

#[test]
fn withdraw_right_after_vouch_restores_vouches() {
    let mut c = two_vouches();
    let before: Vec<(AccountId, i128)> = c.get_vouches(BORROWER).iter().map(|v| (v.voucher, v.stake)).collect();
    c.vouch(200, V3, BORROWER, 77_000, TOKEN).unwrap();
    c.withdraw_vouch(201, V3, BORROWER).unwrap();
    let after: Vec<(AccountId, i128)> = c.get_vouches(BORROWER).iter().map(|v| (v.voucher, v.stake)).collect();
    assert_eq!(before, after);
    let n = c.outbox.len();
    assert_eq!(c.outbox[n - 2], Effect::Transfer { token: TOKEN, from: V3, to: CONTRACT, amount: 77_000 });
    assert_eq!(c.outbox[n - 1], Effect::Transfer { token: TOKEN, from: CONTRACT, to: V3, amount: 77_000 });
}

#[test]
fn partial_withdraw_keeps_uneven_remainder() {
    let mut c = initialized();
    let v4 = AccountId(14);
    c.vouch_with_sector(100, V1, BORROWER, 1_000_000, TOKEN, "a".to_string()).unwrap();
    c.vouch_with_sector(100, V2, BORROWER, 700_000, TOKEN, "b".to_string()).unwrap();
    c.vouch_with_sector(100, V3, BORROWER, 700_000, TOKEN, "c".to_string()).unwrap();
    c.vouch_with_sector(100, v4, BORROWER, 700_000, TOKEN, "d".to_string()).unwrap();
    c.request_loan(200, BORROWER, 1_000_000, 0, "x".to_string(), TOKEN).unwrap();
    let total_before: i128 = c.get_vouches(BORROWER).iter().map(|v| v.stake).sum();
    c.partial_withdraw(V1, BORROWER).unwrap();
    let stakes: Vec<i128> = c.get_vouches(BORROWER).iter().map(|v| v.stake).collect();
    assert_eq!(stakes, vec![500_000, 716_666, 716_666, 716_666]);
    let paid = 450_000;
    assert_eq!(c.outbox.last(), Some(&Effect::Transfer { token: TOKEN, from: CONTRACT, to: V1, amount: paid }));
    let total_after: i128 = stakes.iter().sum();
    assert_eq!(total_after + paid + 2, total_before);
}
