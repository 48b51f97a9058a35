use vstd::prelude::*;

verus! {

/// Every way a protocol operation can be refused.
#[derive(Clone, Copy, Debug, PartialEq, Eq, Structural)]
pub enum ContractError {
    InsufficientFunds,
    ActiveLoanExists,
    StakeOverflow,
    ZeroAddress,
    DuplicateVouch,
    NoActiveLoan,
    ContractPaused,
    LoanPastDeadline,
    PoolLengthMismatch,
    PoolEmpty,
    PoolBorrowerActiveLoan,
    PoolInsufficientFunds,
    MinStakeNotMet,
    LoanExceedsMaxAmount,
    InsufficientVouchers,
    UnauthorizedCaller,
    InvalidAmount,
    InvalidStateTransition,
    AlreadyInitialized,
    VouchTooRecent,
    VouchCooldownActive,
    VoucherNotWhitelisted,
    Blacklisted,
    TimelockNotFound,
    TimelockNotReady,
    TimelockExpired,
    NoVouchesForBorrower,
    VoucherNotFound,
    InvalidToken,
    AlreadyVoted,
    SlashVoteNotFound,
    SlashAlreadyExecuted,
    LoanBelowMinAmount,
    QuorumNotMet,
    MaxVouchersPerBorrowerExceeded,
    InsufficientVoucherBalance,
    SelfVouchNotAllowed,
    DuplicateToken,
    InvalidAdminThreshold,
    InsufficientYieldReserve,
    ReminderAlreadySent,
    /// Insurance pool has no funds to cover the claim.
    InsurancePoolEmpty,
    /// Insurance claim already made for this loan.
    InsuranceClaimAlreadyMade,
    /// Basis points value is invalid (must be 0–10000).
    InvalidBps,
    /// Caller is not the registered oracle address.
    OracleUnauthorized,
    /// Credit score value is out of the valid range (0–1000).
    InvalidCreditScore,
    /// The reentrancy lock is already held.
    Reentrancy,
    /// The loan purpose is not on the configured whitelist.
    LoanPurposeNotAllowed,
    /// A single sector backs more than half of the borrower's stake.
    SectorConcentrationTooHigh,
    /// A restructure request is already waiting for approvals.
    RestructureAlreadyPending,
    /// No restructure request is pending for the borrower.
    RestructureRequestNotFound,
    /// The requested auction (or proposal) does not exist.
    ProposalNotFound,
    /// The bidding period of the auction is over.
    VotingPeriodEnded,
    /// The auction cannot be settled before its end time.
    TimelockDelayNotElapsed,
    /// The bridge nonce of a bid was already consumed.
    ReplayAttackDetected,
    /// The bid attestation is timestamped too far in the future.
    AttestationFromFuture,
    /// The bid attestation is too old.
    AttestationExpired,
}

} // verus!
