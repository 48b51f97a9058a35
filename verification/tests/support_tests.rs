use quorum_credit::contract::QuorumCreditContract;
use quorum_credit::errors::ContractError;
use quorum_credit::helpers::{
    acquire_lock, config, get_active_loan_record, has_active_loan, release_lock,
    require_admin_approval, require_allowed_token, require_not_paused, require_positive_amount,
    validate_address, validate_amount, validate_timestamp,
};
use quorum_credit::metrics::{
    append_decimal, append_signed_decimal, format_prometheus_metrics, get_metrics, increment_gauge,
    increment_metric, CounterKey, GaugeKey, MetricsStore,
};
use quorum_credit::openapi::{generate_api_documentation, generate_openapi_schema};
use quorum_credit::search::{get_loans_by_status, get_top_vouchers, search_loans, search_vouches};
use quorum_credit::types::{AccountId, PauseFlag};

const TOKEN: AccountId = AccountId(50);
const ADMIN1: AccountId = AccountId(901);
const ADMIN2: AccountId = AccountId(902);

fn initialized() -> QuorumCreditContract {
    let mut c = QuorumCreditContract::new(AccountId(1000));
    c.initialize(AccountId(900), vec![ADMIN1, ADMIN2], 2, TOKEN).unwrap();
    c
}

#[test]
fn lock_refuses_reentry() {
    let mut c = initialized();
    assert_eq!(acquire_lock(&mut c), Ok(()));
    assert!(c.locked);
    assert_eq!(acquire_lock(&mut c), Err(ContractError::Reentrancy));
    release_lock(&mut c);
    assert!(!c.locked);
    assert_eq!(acquire_lock(&mut c), Ok(()));
}

#[test]
fn pause_check() {
    let mut c = initialized();
    assert_eq!(require_not_paused(&c), Ok(()));
    c.paused = true;
    assert_eq!(require_not_paused(&c), Err(ContractError::ContractPaused));
}

#[test]
fn input_validation() {
    let c = initialized();
    assert_eq!(validate_address(&c, AccountId(3)), Ok(()));
    assert_eq!(validate_amount(&c, 1), Ok(()));
    assert_eq!(validate_amount(&c, 0), Err(ContractError::InvalidAmount));
    assert_eq!(validate_amount(&c, -5), Err(ContractError::InvalidAmount));
    assert_eq!(validate_timestamp(&c, 0, 0), Err(ContractError::InvalidAmount));
    assert_eq!(validate_timestamp(&c, 10, 10), Err(ContractError::InvalidAmount));
    assert_eq!(validate_timestamp(&c, 11, 10), Ok(()));
    assert_eq!(require_positive_amount(&c, 0), Err(ContractError::InsufficientFunds));
    assert_eq!(require_positive_amount(&c, 7), Ok(()));
}

#[test]
fn config_and_tokens() {
    let mut c = initialized();
    assert_eq!(config(&c).admin_threshold, 2);
    assert_eq!(config(&c).yield_bps, 200);
    assert_eq!(require_allowed_token(&c, TOKEN), Ok(TOKEN));
    assert_eq!(require_allowed_token(&c, AccountId(51)), Err(ContractError::InvalidToken));
    c.config.as_mut().unwrap().allowed_tokens.push(AccountId(51));
    assert_eq!(require_allowed_token(&c, AccountId(51)), Ok(AccountId(51)));
}

#[test]
fn no_active_loan_lookup() {
    let c = initialized();
    assert!(!has_active_loan(&c, AccountId(1)));
    assert_eq!(get_active_loan_record(&c, AccountId(1)).err(), Some(ContractError::NoActiveLoan));
}

#[test]
fn admin_quorum() {
    let c = initialized();
    assert_eq!(require_admin_approval(&c, &vec![ADMIN1, ADMIN2]), Ok(()));
    assert_eq!(require_admin_approval(&c, &vec![ADMIN2]), Err(ContractError::QuorumNotMet));
    assert_eq!(require_admin_approval(&c, &vec![ADMIN1, ADMIN1]), Err(ContractError::UnauthorizedCaller));
    assert_eq!(require_admin_approval(&c, &vec![ADMIN1, AccountId(3)]), Err(ContractError::UnauthorizedCaller));
}

#[test]
fn pause_flag_names() {
    assert_eq!(PauseFlag::from_string(&"vouch".to_string()), Some(PauseFlag::Vouch));
    assert_eq!(PauseFlag::from_string(&"loan_request".to_string()), Some(PauseFlag::LoanRequest));
    assert_eq!(PauseFlag::from_string(&"repay".to_string()), Some(PauseFlag::Repay));
    assert_eq!(PauseFlag::from_string(&"slash".to_string()), Some(PauseFlag::Slash));
    assert_eq!(PauseFlag::from_string(&"withdraw".to_string()), Some(PauseFlag::Withdraw));
    assert_eq!(PauseFlag::from_string(&"Vouch".to_string()), None);
    assert_eq!(PauseFlag::from_string(&"".to_string()), None);
}

#[test]
fn metrics_counters() {
    let mut store = MetricsStore::new();
    increment_metric(&mut store, CounterKey::LoanCount, 3);
    increment_metric(&mut store, CounterKey::LoanCount, 2);
    increment_metric(&mut store, CounterKey::VouchCount, 7);
    increment_gauge(&mut store, GaugeKey::TotalStake, 1_000);
    increment_gauge(&mut store, GaugeKey::TotalStake, -1_500);
    let m = get_metrics(&store);
    assert_eq!(m.total_loans, 5);
    assert_eq!(m.active_loans, 0);
    assert_eq!(m.total_vouches, 7);
    assert_eq!(m.total_stake, -500);
    assert_eq!(m.total_slashed, 0);
}

#[test]
fn prometheus_exposition() {
    let mut store = MetricsStore::new();
    increment_metric(&mut store, CounterKey::LoanCount, 12);
    increment_metric(&mut store, CounterKey::ActiveLoanCount, 3);
    increment_gauge(&mut store, GaugeKey::TotalStake, 1_200_000);
    increment_gauge(&mut store, GaugeKey::ContractBalance, -7);
    let text = format_prometheus_metrics(&store);
    let expected = "# HELP quorum_credit_total_loans Total number of loans\n\
# TYPE quorum_credit_total_loans gauge\n\
quorum_credit_total_loans 12\n\
# HELP quorum_credit_active_loans Number of active loans\n\
# TYPE quorum_credit_active_loans gauge\n\
quorum_credit_active_loans 3\n\
# HELP quorum_credit_total_vouches Total number of vouches\n\
# TYPE quorum_credit_total_vouches gauge\n\
quorum_credit_total_vouches 0\n\
# HELP quorum_credit_total_stake Total staked amount in stroops\n\
# TYPE quorum_credit_total_stake gauge\n\
quorum_credit_total_stake 1200000\n\
# HELP quorum_credit_total_yield_distributed Total yield distributed in stroops\n\
# TYPE quorum_credit_total_yield_distributed gauge\n\
quorum_credit_total_yield_distributed 0\n\
# HELP quorum_credit_total_slashed Total amount slashed in stroops\n\
# TYPE quorum_credit_total_slashed gauge\n\
quorum_credit_total_slashed 0\n\
# HELP quorum_credit_contract_balance Contract balance in stroops\n\
# TYPE quorum_credit_contract_balance gauge\n\
quorum_credit_contract_balance -7\n";
    assert_eq!(text, expected);
}

#[test]
fn decimal_rendering() {
    for n in [0u128, 7, 10, 99, 100, 123_456_789, u128::MAX] {
        let mut s = String::from("x=");
        append_decimal(&mut s, n);
        assert_eq!(s, format!("x={}", n));
    }
    for x in [0i128, -1, 42, -1_000_000, i128::MIN, i128::MAX] {
        let mut s = String::new();
        append_signed_decimal(&mut s, x);
        assert_eq!(s, x.to_string());
    }
}

#[test]
fn openapi_schema_is_json() {
    let schema = generate_openapi_schema();
    let v: serde_json::Value = serde_json::from_str(&schema).unwrap();
    assert_eq!(v["openapi"], "3.0.0");
    assert_eq!(v["info"]["title"], "QuorumCredit API");
    assert_eq!(v["servers"].as_array().unwrap().len(), 2);
    let paths = v["paths"].as_object().unwrap();
    let names: Vec<&str> = paths.keys().map(|k| k.as_str()).collect();
    for expected in ["/initialize", "/vouch", "/request_loan", "/repay", "/get_loan/{borrower}",
        "/get_vouches/{borrower}", "/search", "/metrics"] {
        assert!(names.contains(&expected));
    }
    assert_eq!(paths.len(), 8);
    assert!(v["components"]["schemas"]["LoanRecord"].is_object());
    assert!(v["components"]["schemas"]["VouchRecord"].is_object());
    assert_eq!(schema, generate_openapi_schema());
}

#[test]
fn api_documentation_sections() {
    let doc = generate_api_documentation();
    assert!(doc.starts_with("# QuorumCredit API Documentation\n\n## Overview\n"));
    assert!(doc.contains("### Repay Loan\n`POST /repay`"));
    assert!(doc.ends_with("Get Prometheus-compatible metrics.\n\n"));
}

#[test]
fn searches_find_nothing() {
    let c = initialized();
    let q = "abc".to_string();
    assert!(search_loans(&c, &q, 10).unwrap().is_empty());
    assert!(search_vouches(&c, AccountId(1), &q, 10).unwrap().is_empty());
    assert!(get_loans_by_status(&c, &"Active".to_string(), 500).unwrap().is_empty());
    assert!(get_top_vouchers(&c, 5).unwrap().is_empty());
}

#[test]
fn two_gauge_increments_equal_one() {
    let mut twice = MetricsStore::new();
    increment_metric(&mut twice, CounterKey::VouchCount, 4);
    let mut once = twice;
    increment_gauge(&mut twice, GaugeKey::TotalSlashed, 700);
    increment_gauge(&mut twice, GaugeKey::TotalSlashed, -250);
    increment_gauge(&mut once, GaugeKey::TotalSlashed, 450);
    assert_eq!(twice, once);
}
