use vstd::prelude::*;

verus! {

/// Denominator of percentages kept with two decimals (`10_000` is 100%).
pub const MAX_PERCENT: u64 = 10_000;

/// Number of blocks produced in a year at one block every six seconds.
pub const BLOCKS_IN_YEAR: u64 = 5_256_000;

/// Scale of the rewards-per-share accumulator.
pub const DIVISION_SAFETY_CONST: u64 = 1_000_000_000_000_000_000;

/// Time after the end date of a compensation during which no refund may be claimed.
pub const COMPENSATION_SAFE_PERIOD: u64 = 86_400;

/// Liveliness score from which a staker receives all stacked rewards.
pub const FULL_LIVELINESS_SCORE: u128 = 9_500;

/// Activity state of a contract or of its rewards production.
#[derive(Clone, Copy, Debug, PartialEq, Eq, Structural)]
pub enum State {
    Inactive,
    Active,
}

/// Why a transaction is refused. Each variant stands for one error the contracts signal;
/// `NegativeResult`, `DivisionByZero` and `Overflow` are those of the arithmetic.
#[derive(Clone, Copy, Debug, PartialEq, Eq, Structural)]
pub enum ContractError {
    ContractNotReady,
    CallableOnlyByAcceptedCallers,
    BondNotFound,
    InvalidAmount,
    InvalidLockPeriod,
    InvalidTimelineToProof,
    InvalidTimelineToRefund,
    InvalidTokenIdentifier,
    PenaltiesExceedWithdrawalAmount,
    RefundNotFound,
    VaultNonceNotSet,
    UnknownObject,
    NegativeResult,
    DivisionByZero,
    Overflow,
}

/// A transfer of one token: its identifier, its nonce (0 for fungible tokens) and amount.
#[derive(Clone, Copy, Debug, PartialEq, Eq, Structural)]
pub struct Payment {
    pub token_identifier: u64,
    pub token_nonce: u64,
    pub amount: u128,
}

/// A payment that the chain must send from the contract to an address.
#[derive(Clone, Copy, Debug, PartialEq, Eq, Structural)]
pub struct Transfer {
    pub to: u64,
    pub payment: Payment,
}

} // verus!
