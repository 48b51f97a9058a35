use quorum_credit::contract::{ContractEvent, Effect, QuorumCreditContract};
use quorum_credit::errors::ContractError;
use quorum_credit::search::{get_loans_by_status, search_loans};
use quorum_credit::types::{AccountId, LoanStatus, DEFAULT_LOAN_DURATION};

const CONTRACT: AccountId = AccountId(1000);
const DEPLOYER: AccountId = AccountId(900);
const ADMIN: AccountId = AccountId(901);
const TOKEN: AccountId = AccountId(50);
const BORROWER: AccountId = AccountId(1);
const V1: AccountId = AccountId(11);
const V2: AccountId = AccountId(12);

fn initialized() -> QuorumCreditContract {
    let mut c = QuorumCreditContract::new(CONTRACT);
    c.initialize(DEPLOYER, vec![ADMIN], 1, TOKEN).unwrap();
    c
}

fn backed_by_two_sectors() -> QuorumCreditContract {
    let mut c = initialized();
    c.vouch_with_sector(100, V1, BORROWER, 600_000, TOKEN, "farming".to_string()).unwrap();
    c.vouch_with_sector(100, V2, BORROWER, 600_000, TOKEN, "retail".to_string()).unwrap();
    c
}

fn with_loan() -> QuorumCreditContract {
    let mut c = backed_by_two_sectors();
    assert!(c.loan_request_fits(BORROWER, 1_000_000, 1_000_000, &"business".to_string(), TOKEN, 200));
    c.request_loan(200, BORROWER, 1_000_000, 1_000_000, "business".to_string(), TOKEN).unwrap();
    c
}

#[test]
fn initialize_only_once() {
    let mut c = initialized();
    assert_eq!(c.deployer, Some(DEPLOYER));
    let again = c.initialize(DEPLOYER, vec![ADMIN], 1, TOKEN);
    assert_eq!(again, Err(ContractError::AlreadyInitialized));
}

#[test]
fn initialize_rejects_bad_threshold() {
    let mut c = QuorumCreditContract::new(CONTRACT);
    assert_eq!(c.initialize(DEPLOYER, vec![ADMIN], 0, TOKEN), Err(ContractError::InvalidAmount));
    assert_eq!(c.initialize(DEPLOYER, vec![ADMIN], 2, TOKEN), Err(ContractError::InvalidAmount));
    assert_eq!(c.initialize(DEPLOYER, vec![], 1, TOKEN), Err(ContractError::InvalidAmount));
    assert!(c.config.is_none());
}

#[test]
fn granted_loan_record() {
    let c = with_loan();
    let loan = c.get_loan(BORROWER).unwrap();
    assert_eq!(loan.id, 1);
    assert_eq!(loan.amount, 1_000_000);
    assert_eq!(loan.amount_repaid, 0);
    assert_eq!(loan.total_yield, 20_000);
    assert_eq!(loan.status, LoanStatus::Active);
    assert_eq!(loan.created_at, 200);
    assert_eq!(loan.deadline, 200 + DEFAULT_LOAN_DURATION);
    assert_eq!(loan.loan_purpose, "business");
    assert_eq!(c.loan_counter, 1);
    let n = c.outbox.len();
    assert_eq!(c.outbox[n - 2], Effect::Transfer { token: TOKEN, from: CONTRACT, to: BORROWER, amount: 1_000_000 });
    assert_eq!(c.outbox[n - 1], Effect::Event(ContractEvent::LoanCreated { borrower: BORROWER, amount: 1_000_000 }));
}

#[test]
fn second_loan_refused_while_active() {
    let mut c = with_loan();
    let r = c.request_loan(300, BORROWER, 1_000_000, 0, "business".to_string(), TOKEN);
    assert_eq!(r, Err(ContractError::ActiveLoanExists));
}

#[test]
fn loan_below_minimum_refused() {
    let mut c = backed_by_two_sectors();
    let r = c.request_loan(200, BORROWER, 99_999, 0, "x".to_string(), TOKEN);
    assert_eq!(r, Err(ContractError::LoanBelowMinAmount));
}

#[test]
fn loan_with_insufficient_stake_refused() {
    let mut c = backed_by_two_sectors();
    let r = c.request_loan(200, BORROWER, 1_000_000, 1_200_001, "x".to_string(), TOKEN);
    assert_eq!(r, Err(ContractError::InsufficientFunds));
}

#[test]
fn loan_in_unknown_token_refused() {
    let mut c = backed_by_two_sectors();
    let r = c.request_loan(200, BORROWER, 1_000_000, 0, "x".to_string(), AccountId(77));
    assert_eq!(r, Err(ContractError::InvalidToken));
}

#[test]
fn concentrated_sector_refused() {
    let mut c = initialized();
    c.vouch_with_sector(100, V1, BORROWER, 900_000, TOKEN, "farming".to_string()).unwrap();
    c.vouch_with_sector(100, V2, BORROWER, 300_000, TOKEN, "retail".to_string()).unwrap();
    let r = c.request_loan(200, BORROWER, 1_000_000, 1_000_000, "x".to_string(), TOKEN);
    assert_eq!(r, Err(ContractError::SectorConcentrationTooHigh));
    assert!(c.get_loan(BORROWER).is_none());
}

#[test]
fn purpose_whitelist_enforced() {
    let mut c = backed_by_two_sectors();
    c.set_allowed_purposes(&vec![ADMIN], vec!["education".to_string()]).unwrap();
    let r = c.request_loan(200, BORROWER, 1_000_000, 0, "gambling".to_string(), TOKEN);
    assert_eq!(r, Err(ContractError::LoanPurposeNotAllowed));
    let ok = c.request_loan(200, BORROWER, 1_000_000, 0, "education".to_string(), TOKEN);
    assert_eq!(ok, Ok(()));
}

#[test]
fn admin_approval_errors() {
    let mut c = initialized();
    assert_eq!(c.set_allowed_purposes(&vec![V1], vec![]), Err(ContractError::UnauthorizedCaller));
    assert_eq!(c.set_allowed_purposes(&vec![ADMIN, ADMIN], vec![]), Err(ContractError::UnauthorizedCaller));
    assert_eq!(c.set_allowed_purposes(&vec![], vec![]), Err(ContractError::QuorumNotMet));
}

#[test]
fn insurance_premium_collected() {
    let mut c = backed_by_two_sectors();
    c.set_insurance_premium_bps(&vec![ADMIN], 100).unwrap();
    assert_eq!(c.set_insurance_premium_bps(&vec![ADMIN], 10_001), Err(ContractError::InvalidAmount));
    c.request_loan(200, BORROWER, 1_000_000, 0, "x".to_string(), TOKEN).unwrap();
    assert_eq!(c.get_insurance_pool_balance(), 10_000);
    let n = c.outbox.len();
    assert_eq!(c.outbox[n - 3], Effect::Transfer { token: TOKEN, from: BORROWER, to: CONTRACT, amount: 10_000 });
}

#[test]
fn full_repayment_pays_stake_and_yield() {
    let mut c = with_loan();
    assert!(c.repayment_fits(BORROWER, 1_020_000));
    let before = c.outbox.len();
    c.repay(300, BORROWER, 1_020_000).unwrap();
    let loan = c.loans.get(&1).unwrap();
    assert_eq!(loan.status, LoanStatus::Repaid);
    assert_eq!(loan.amount_repaid, 1_020_000);
    assert_eq!(loan.repayment_timestamp, Some(300));
    assert!(c.get_loan(BORROWER).is_none());
    assert!(c.get_vouches(BORROWER).is_empty());
    let effects = &c.outbox[before..];
    assert_eq!(
        effects,
        &[
            Effect::Transfer { token: TOKEN, from: BORROWER, to: CONTRACT, amount: 1_020_000 },
            Effect::Transfer { token: TOKEN, from: CONTRACT, to: V1, amount: 610_000 },
            Effect::Transfer { token: TOKEN, from: CONTRACT, to: V2, amount: 610_000 },
            Effect::Event(ContractEvent::LoanRepaid { borrower: BORROWER, amount: 1_000_000 }),
        ]
    );
}

#[test]
fn partial_repayment_keeps_loan_active() {
    let mut c = with_loan();
    c.repay(300, BORROWER, 500_000).unwrap();
    let loan = c.get_loan(BORROWER).unwrap();
    assert_eq!(loan.status, LoanStatus::Active);
    assert_eq!(loan.amount_repaid, 500_000);
    assert_eq!(c.get_vouches(BORROWER).len(), 2);
    assert_eq!(c.repay(300, BORROWER, 520_001), Err(ContractError::InvalidAmount));
    c.repay(400, BORROWER, 520_000).unwrap();
    assert!(c.get_loan(BORROWER).is_none());
}

#[test]
fn repay_errors() {
    let mut c = with_loan();
    assert_eq!(c.repay(300, AccountId(2), 10), Err(ContractError::NoActiveLoan));
    assert_eq!(c.repay(300, BORROWER, 0), Err(ContractError::InvalidAmount));
    assert_eq!(c.repay(300, BORROWER, 1_020_001), Err(ContractError::InvalidAmount));
}

#[test]
fn paused_contract_refuses_lending() {
    let mut c = backed_by_two_sectors();
    c.paused = true;
    let r = c.request_loan(200, BORROWER, 1_000_000, 0, "x".to_string(), TOKEN);
    assert_eq!(r, Err(ContractError::ContractPaused));
    assert_eq!(c.repay(200, BORROWER, 1), Err(ContractError::ContractPaused));
}

#[test]
fn restructure_forgives_yield_after_all_approve() {
    let mut c = with_loan();
    let deadline = c.get_loan(BORROWER).unwrap().deadline;
    assert_eq!(c.restructure_loan(300, BORROWER, deadline, 0), Err(ContractError::InvalidAmount));
    c.restructure_loan(300, BORROWER, deadline + 1000, 1_010_000).unwrap();
    assert_eq!(
        c.restructure_loan(300, BORROWER, deadline + 1000, 0),
        Err(ContractError::RestructureAlreadyPending)
    );
    let req = c.get_restructure_request(BORROWER).unwrap();
    assert_eq!(req.new_deadline, deadline + 1000);
    assert_eq!(req.requested_at, 300);

    assert_eq!(c.approve_restructure(AccountId(99), BORROWER), Err(ContractError::UnauthorizedCaller));
    c.approve_restructure(V1, BORROWER).unwrap();
    assert_eq!(c.approve_restructure(V1, BORROWER), Err(ContractError::AlreadyVoted));
    assert_eq!(c.get_loan(BORROWER).unwrap().deadline, deadline);
    c.approve_restructure(V2, BORROWER).unwrap();

    let loan = c.get_loan(BORROWER).unwrap();
    assert_eq!(loan.deadline, deadline + 1000);
    assert_eq!(loan.total_yield, 10_000);
    assert!(c.get_restructure_request(BORROWER).is_none());
    assert_eq!(
        c.approve_restructure(V1, BORROWER),
        Err(ContractError::RestructureRequestNotFound)
    );
}

#[test]
fn restructure_without_loan_refused() {
    let mut c = backed_by_two_sectors();
    assert_eq!(c.restructure_loan(300, BORROWER, 10, 0), Err(ContractError::NoActiveLoan));
}

#[test]
fn restructure_below_the_yield_reduces_principal() {
    let mut c = with_loan();
    let deadline = c.get_loan(BORROWER).unwrap().deadline;
    c.restructure_loan(300, BORROWER, deadline + 10, 500_000).unwrap();
    c.approve_restructure(V1, BORROWER).unwrap();
    c.approve_restructure(V2, BORROWER).unwrap();
    let loan = c.get_loan(BORROWER).unwrap();
    assert_eq!(loan.total_yield, 0);
    assert_eq!(loan.amount, 500_000);
    assert_eq!(loan.amount + loan.total_yield - loan.amount_repaid, 500_000);
    c.repay(400, BORROWER, 500_000).unwrap();
    assert!(c.get_loan(BORROWER).is_none());
}

#[test]
fn restructure_after_partial_repayment_reaches_requested_amount() {
    let mut c = with_loan();
    c.repay(250, BORROWER, 300_000).unwrap();
    let deadline = c.get_loan(BORROWER).unwrap().deadline;
    c.restructure_loan(300, BORROWER, deadline + 10, 710_000).unwrap();
    c.approve_restructure(V2, BORROWER).unwrap();
    c.approve_restructure(V1, BORROWER).unwrap();
    let loan = c.get_loan(BORROWER).unwrap();
    assert_eq!(loan.total_yield, 10_000);
    assert_eq!(loan.amount, 1_000_000);
    assert_eq!(loan.amount + loan.total_yield - loan.amount_repaid, 710_000);
}

#[test]
fn uninitialized_contract_refusals() {
    let mut c = QuorumCreditContract::new(CONTRACT);
    assert_eq!(c.repay(10, BORROWER, 5), Err(ContractError::NoActiveLoan));
    assert!(c.repayment_fits(BORROWER, 5));
    c.paused = true;
    assert_eq!(c.repay(10, BORROWER, 5), Err(ContractError::ContractPaused));
    assert_eq!(
        c.request_loan(10, BORROWER, 1_000_000, 0, "x".to_string(), TOKEN),
        Err(ContractError::ContractPaused)
    );
    assert!(c.loan_request_fits(BORROWER, 1_000_000, 0, &"x".to_string(), TOKEN, 10));
}

#[test]
fn range_check_only_for_requests_that_pass() {
    let mut c = with_loan();
    let huge = i128::MAX / 100;
    assert!(c.loan_request_fits(BORROWER, huge, 0, &"x".to_string(), TOKEN, 300));
    assert_eq!(
        c.check_loan_request(BORROWER, huge, 0, &"x".to_string(), TOKEN),
        Err(ContractError::ActiveLoanExists)
    );
    let other = AccountId(2);
    c.vouch_with_sector(300, V1, other, 500, TOKEN, "a".to_string()).unwrap();
    c.vouch_with_sector(300, V2, other, 500, TOKEN, "b".to_string()).unwrap();
    assert!(!c.loan_request_fits(other, huge, 0, &"x".to_string(), TOKEN, 300));
    assert!(c.loan_request_fits(other, 1_000_000, 0, &"x".to_string(), TOKEN, 300));
}

#[test]
fn loans_found_by_status_and_purpose() {
    let mut c = initialized();
    for (b, purpose) in [(1u64, "Small Business"), (2, "education"), (3, "BUSINESS expansion")] {
        let borrower = AccountId(b);
        c.vouch_with_sector(100, V1, borrower, 600_000, TOKEN, "a".to_string()).unwrap();
        c.vouch_with_sector(100, V2, borrower, 600_000, TOKEN, "b".to_string()).unwrap();
        c.request_loan(200, borrower, 1_000_000, 0, purpose.to_string(), TOKEN).unwrap();
    }
    c.repay(300, AccountId(2), 1_020_000).unwrap();
    let ids = |v: Vec<quorum_credit::types::LoanRecord>| v.iter().map(|l| l.id).collect::<Vec<u64>>();
    assert_eq!(ids(get_loans_by_status(&c, &"Active".to_string(), 10).unwrap()), vec![1, 3]);
    assert_eq!(ids(get_loans_by_status(&c, &"Repaid".to_string(), 10).unwrap()), vec![2]);
    assert_eq!(ids(get_loans_by_status(&c, &"Active".to_string(), 1).unwrap()), vec![1]);
    assert!(get_loans_by_status(&c, &"active".to_string(), 10).unwrap().is_empty());
    assert_eq!(ids(search_loans(&c, &"business".to_string(), 10).unwrap()), vec![1, 3]);
    assert_eq!(ids(search_loans(&c, &"EDU".to_string(), 500).unwrap()), vec![2]);
    assert_eq!(ids(search_loans(&c, &"".to_string(), 2).unwrap()), vec![1, 2]);
    assert!(search_loans(&c, &"farm".to_string(), 10).unwrap().is_empty());
}

#[test]
fn yield_rate_up_to_full_principal() {
    let mut c = backed_by_two_sectors();
    c.config.as_mut().unwrap().yield_bps = 10_000;
    let huge = i128::MAX / 20_000;
    assert!(c.loan_request_fits(BORROWER, huge, 0, &"x".to_string(), TOKEN, 200));
    assert!(!c.loan_request_fits(BORROWER, i128::MAX / 5_000, 0, &"x".to_string(), TOKEN, 200));
    c.config.as_mut().unwrap().yield_bps = 1;
    assert!(!c.loan_request_fits(BORROWER, i128::MAX - 1, 0, &"x".to_string(), TOKEN, 200));
    c.config.as_mut().unwrap().yield_bps = 10_000;
    c.request_loan(200, BORROWER, 1_000_000, 0, "x".to_string(), TOKEN).unwrap();
    assert_eq!(c.get_loan(BORROWER).unwrap().total_yield, 1_000_000);
}
