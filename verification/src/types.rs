use vstd::prelude::*;

verus! {

// ── Constants ─────────────────────────────────────────────────────────────────

pub const DEFAULT_YIELD_BPS: i128 = 200;
pub const DEFAULT_SLASH_BPS: i128 = 5000;
pub const DEFAULT_MIN_YIELD_STAKE: i128 = 50;
/// 1% of loan amount.
pub const DEFAULT_REFERRAL_BONUS_BPS: u32 = 100;
/// One minute.
pub const MIN_VOUCH_AGE: u64 = 60;
pub const DEFAULT_MIN_VOUCH_AGE_SECS: u64 = 60;
pub const DEFAULT_MAX_VOUCHERS: u32 = 100;
pub const DEFAULT_MIN_LOAN_AMOUNT: i128 = 100_000;
pub const DEFAULT_LOAN_DURATION: u64 = 2_592_000;
pub const DEFAULT_MAX_LOAN_TO_STAKE_RATIO: u32 = 150;
/// 24 hours.
pub const DEFAULT_VOUCH_COOLDOWN_SECS: u64 = 86_400;
pub const TIMELOCK_DELAY: u64 = 86_400;
pub const TIMELOCK_EXPIRY: u64 = 259_200;
/// 48 hours.
pub const DEFAULT_ADMIN_TIMELOCK_SECONDS: u64 = 172_800;
/// 90 days for the time-weighted yield bonus.
pub const TIME_WEIGHTED_YIELD_BONUS_THRESHOLD_DAYS: u64 = 90;
/// 1.2x = 12/10.
pub const TIME_WEIGHTED_YIELD_BONUS_MULTIPLIER: i128 = 12;
pub const SECONDS_PER_DAY: u64 = 86_400;
/// Seven days.
pub const DEFAULT_DISPUTE_WINDOW_SECS: u64 = 604_800;

/// Basis-point denominator: 10_000 bps = 100%.
pub const BPS_DENOMINATOR: i128 = 10_000;

// ── Loan size tiers ───────────────────────────────────────────────────────────

pub const SMALL_LOAN_THRESHOLD: i128 = 1_000_000;
pub const MEDIUM_LOAN_THRESHOLD: i128 = 5_000_000;
pub const LARGE_LOAN_THRESHOLD: i128 = 10_000_000;
pub const CRITICAL_LOAN_THRESHOLD: i128 = 50_000_000;

/// 48 hours review period.
pub const LARGE_LOAN_DELAY_SECONDS: u64 = 172_800;
/// One hour cancellation window.
pub const CANCELLATION_WINDOW_SECONDS: u64 = 3_600;
/// Maximum circular vouch depth.
pub const MAX_VOUCH_DEPTH: u32 = 3;

// ── Accounts ──────────────────────────────────────────────────────────────────

/// An on-chain account or contract, identified by a handle that the host
/// assigns one-to-one to addresses.
#[derive(Clone, Copy, Debug, PartialEq, Eq, Structural, Hash)]
pub struct AccountId(pub u64);

// ── Loan status ───────────────────────────────────────────────────────────────

#[derive(Clone, Copy, Debug, PartialEq, Eq, Structural)]
pub enum LoanStatus {
    /// No loan recorded.
    Unset,
    Pending,
    Active,
    Repaid,
    Defaulted,
    Cancelled,
}

// ── Loan purpose categories ───────────────────────────────────────────────────

#[derive(Clone, Copy, Debug, PartialEq, Eq, Structural)]
pub enum LoanCategory {
    Business,
    Education,
    Medical,
    Agriculture,
    Personal,
    Other,
}

// ── Granular pause flags ──────────────────────────────────────────────────────

#[derive(Clone, Copy, Debug, PartialEq, Eq, Structural)]
pub enum PauseFlag {
    /// Not paused.
    NotPaused,
    /// Pause vouch operations.
    Vouch,
    /// Pause new loan requests.
    LoanRequest,
    /// Pause repayments.
    Repay,
    /// Pause slash operations.
    Slash,
    /// Pause withdrawals.
    Withdraw,
}

/// The flag that a textual flag name selects, if any.
pub open spec fn pause_flag_of(s: Seq<char>) -> Option<PauseFlag> {
    if s == "vouch"@ {
        Some(PauseFlag::Vouch)
    } else if s == "loan_request"@ {
        Some(PauseFlag::LoanRequest)
    } else if s == "repay"@ {
        Some(PauseFlag::Repay)
    } else if s == "slash"@ {
        Some(PauseFlag::Slash)
    } else if s == "withdraw"@ {
        Some(PauseFlag::Withdraw)
    } else {
        None
    }
}

impl PauseFlag {
    /// Converts a flag name to its `PauseFlag` by comparing against the known
    /// flag names.
    pub fn from_string(s: &String) -> (r: Option<PauseFlag>)
        ensures
            r == pause_flag_of(s@),
    {
        if *s == String::from_str("vouch") {
            Some(PauseFlag::Vouch)
        } else if *s == String::from_str("loan_request") {
            Some(PauseFlag::LoanRequest)
        } else if *s == String::from_str("repay") {
            Some(PauseFlag::Repay)
        } else if *s == String::from_str("slash") {
            Some(PauseFlag::Slash)
        } else if *s == String::from_str("withdraw") {
            Some(PauseFlag::Withdraw)
        } else {
            None
        }
    }
}

// ── Disputes ──────────────────────────────────────────────────────────────────

#[derive(Clone, Debug)]
pub struct DisputeRecord {
    pub borrower: AccountId,
    pub loan_id: u64,
    pub evidence_hash: String,
    pub disputed_at: u64,
    pub resolved: bool,
    /// 0 if not resolved.
    pub resolved_at: u64,
    /// True if the dispute was upheld (slash reversed).
    pub upheld: bool,
    pub voters: Vec<AccountId>,
    pub approve_votes: i128,
    pub reject_votes: i128,
}

#[derive(Clone, Copy, Debug, PartialEq, Eq, Structural)]
pub enum DisputeResolution {
    /// Dispute valid, slash reversed.
    Upheld,
    /// Dispute invalid, slash stands.
    Rejected,
}

// ── Composite keys ────────────────────────────────────────────────────────────

/// Key for the vouch graph: maps (voucher, borrower) to a depth.
#[derive(Clone, Copy, Debug, PartialEq, Eq, Structural)]
pub struct VouchGraphKey {
    pub voucher: AccountId,
    pub borrower: AccountId,
}

/// Key for a voucher's stake limit: maps (voucher, borrower) to a maximum stake.
#[derive(Clone, Copy, Debug, PartialEq, Eq, Structural)]
pub struct VoucherStakeLimitKey {
    pub voucher: AccountId,
    pub borrower: AccountId,
}

// ── Audit log and governance ──────────────────────────────────────────────────

#[derive(Clone, Debug)]
pub struct AdminAuditEntry {
    pub admin: AccountId,
    pub action: String,
    pub timestamp: u64,
}

#[derive(Clone, Debug)]
pub struct SlashVoteRecord {
    /// Total stake voting to approve the slash.
    pub approve_stake: i128,
    /// Total stake voting to reject the slash.
    pub reject_stake: i128,
    /// Addresses that have already voted.
    pub voters: Vec<AccountId>,
    /// True once the slash has been executed.
    pub executed: bool,
}

#[derive(Clone, Debug)]
pub struct GovernanceProposal {
    pub id: u64,
    pub proposer: AccountId,
    pub description: String,
    pub approve_votes: i128,
    pub reject_votes: i128,
    pub voters: Vec<AccountId>,
    pub voting_end: u64,
    pub executed: bool,
}

#[derive(Clone, Debug)]
pub enum AdminTimelockAction {
    Pause,
    Unpause,
    UpdateConfig(Config),
    SetAdminThreshold(u32),
}

#[derive(Clone, Debug)]
pub struct AdminTimelock {
    pub id: u64,
    pub action: AdminTimelockAction,
    pub proposer: AccountId,
    pub eta: u64,
    pub executed: bool,
    pub cancelled: bool,
}

// ── Config ────────────────────────────────────────────────────────────────────

/// All configurable protocol parameters.
#[derive(Clone, Debug)]
pub struct Config {
    pub admins: Vec<AccountId>,
    pub admin_threshold: u32,
    /// The primary protocol token.
    pub token: AccountId,
    /// Additional tokens accepted for loans and vouches.
    pub allowed_tokens: Vec<AccountId>,
    pub yield_bps: i128,
    pub slash_bps: i128,
    pub max_vouchers: u32,
    pub min_loan_amount: i128,
    pub loan_duration: u64,
    pub max_loan_to_stake_ratio: u32,
    pub grace_period: u64,
    pub min_vouch_age_secs: u64,
    pub prepayment_penalty_bps: i128,
    /// Loan purposes that may be requested; empty means every purpose.
    pub allowed_purposes: Vec<String>,
    /// Insurance premium charged on disbursement, in basis points.
    pub insurance_premium_bps: i128,
}

/// Per-token overrides for yield and slash parameters; when set they take
/// precedence over the global `Config` values.
#[derive(Clone, Copy, Debug, PartialEq, Eq, Structural)]
pub struct TokenConfig {
    pub yield_bps: i128,
    pub slash_bps: i128,
}

// ── Amortization ──────────────────────────────────────────────────────────────

/// A single installment in a loan's amortization schedule.
#[derive(Clone, Copy, Debug, PartialEq, Eq, Structural)]
pub struct AmortizationEntry {
    /// 1-based.
    pub installment_number: u32,
    /// When this payment is due.
    pub due_timestamp: u64,
    /// Amount due for this installment, in stroops.
    pub amount_due: i128,
    /// True once this installment has been paid.
    pub paid: bool,
}

// ── Loans and vouches ─────────────────────────────────────────────────────────

#[derive(Clone, Debug)]
pub struct LoanRecord {
    pub id: u64,
    pub borrower: AccountId,
    pub co_borrowers: Vec<AccountId>,
    /// Total loan principal in stroops.
    pub amount: i128,
    /// Cumulative repayments received so far (principal + yield).
    pub amount_repaid: i128,
    /// Yield owed to vouchers, locked in at disbursement.
    pub total_yield: i128,
    pub status: LoanStatus,
    pub created_at: u64,
    pub disbursement_timestamp: u64,
    /// Set once the loan is fully repaid.
    pub repayment_timestamp: Option<u64>,
    /// Repayment deadline.
    pub deadline: u64,
    /// Borrower-supplied purpose.
    pub loan_purpose: String,
    /// Token used for this loan.
    pub token_address: AccountId,
    /// Amortization schedule (empty = bullet repayment).
    pub amortization_schedule: Vec<AmortizationEntry>,
    pub reminder_sent: bool,
    pub risk_score: u32,
}

#[derive(Clone, Debug)]
pub struct LargeLoanApprovalRecord {
    pub borrower: AccountId,
    pub amount: i128,
    /// Admins who approved.
    pub approved_by: Vec<AccountId>,
    pub approval_timestamp: u64,
    pub executed: bool,
}

#[derive(Clone, Debug)]
pub struct LargeLoanRequestRecord {
    pub borrower: AccountId,
    pub amount: i128,
    pub requested_at: u64,
    pub token_address: AccountId,
    pub threshold: i128,
    pub loan_purpose: String,
    pub loan_category: LoanCategory,
}

/// A voucher's stake backing a borrower.
#[derive(Debug)]
pub struct VouchRecord {
    pub voucher: AccountId,
    /// In stroops.
    pub stake: i128,
    /// When the vouch was created; immutable once set.
    pub vouch_timestamp: u64,
    /// Token this stake is denominated in.
    pub token: AccountId,
    /// Sector label used for diversification limits.
    pub sector: String,
}

impl Clone for VouchRecord {
    fn clone(&self) -> (r: Self)
        ensures
            r == *self,
    {
        VouchRecord {
            voucher: self.voucher,
            stake: self.stake,
            vouch_timestamp: self.vouch_timestamp,
            token: self.token,
            sector: self.sector.clone(),
        }
    }
}

/// A stake withdrawal waiting for the borrower's loan to close.
#[derive(Clone, Copy, Debug, PartialEq, Eq, Structural)]
pub struct QueuedWithdrawal {
    pub voucher: AccountId,
    pub amount: i128,
    /// Fee paid to be served before requests with lower fees.
    pub priority_fee: i128,
    pub requested_at: u64,
}

/// A borrower's request to restructure an active loan, pending the
/// approval of every voucher.
#[derive(Clone, Debug)]
pub struct RestructureRequest {
    pub borrower: AccountId,
    pub new_deadline: u64,
    /// New outstanding amount; 0 keeps the outstanding amount.
    pub new_amount: i128,
    pub requested_at: u64,
    pub approvals: Vec<AccountId>,
}

// ── Pools ─────────────────────────────────────────────────────────────────────

#[derive(Clone, Debug)]
pub struct VouchPool {
    pub pool_id: u64,
    pub borrower: AccountId,
    /// Vouchers in this pool.
    pub members: Vec<AccountId>,
    pub created_at: u64,
}

#[derive(Clone, Debug)]
pub struct LoanPoolRecord {
    pub pool_id: u64,
    pub borrowers: Vec<AccountId>,
    pub amounts: Vec<i128>,
    pub created_at: u64,
    pub total_disbursed: i128,
}

#[derive(Clone, Debug)]
pub struct TimelockProposal {
    pub id: u64,
    pub action: TimelockAction,
    pub proposer: AccountId,
    pub eta: u64,
    pub executed: bool,
    pub cancelled: bool,
}

#[derive(Clone, Debug)]
pub enum TimelockAction {
    Slash(AccountId),
    SetConfig(Config),
}

} // verus!
