//! The errors of the pool contract.

use vstd::prelude::*;
use vstd::string::*;

use crate::error::{std_error_text, OverflowOperation, StdError};
use crate::number::{decimal_text, decimal_to_text, Decimal, Timestamp};
use crate::text::{digits, number};

verus! {

/// Why the pool refuses a call.
#[derive(Debug, PartialEq)]
pub enum ContractError {
    Std(StdError),
    Unauthorized {  },
    SlippageExceeded { expected: u128, actual: u128, token: String },
    RatioDeviationExceeded {
        expected_ratio: Decimal,
        actual_ratio: Decimal,
        max_deviation_bps: u16,
        actual_deviation_bps: u16,
    },
    CannotMigrate { previous_contract: String },
    OraclePriceDeviation { oracle: u128, twap: u128 },
    IncorrectNativeDenom { provided: String, required: String },
    PositionLocked { unlock_time: Timestamp },
    PoolPausedLowLiquidity {  },
    NoDistributionInProgress {  },
    InvalidFactory {  },
    InvalidThresholdParams { msg: &'static str },
    ReentrancyGuard {  },
    ShortOfThreshold {  },
    TooFrequentCommits { wait_time: u64 },
    DivideByZero,
    InvalidPercent,
    ZeroAmount {  },
    TransactionExpired {  },
    MismatchAmount {  },
    InvalidFee {  },
    InvalidBeliefPrice {  },
    InvalidAmount {  },
    InvalidNativeAmount {  },
    InvalidOraclePrice {  },
    InsufficientLiquidity {  },
    InsufficientLiquidityMinted {  },
    UnauthorizedNotCreator {  },
    InvalidPaymentTiers {  },
    Cw20DirectSwap {  },
    NonSupported {  },
    InvalidZeroAmount {  },
    MaxSpreadAssertion {  },
    AllowedSpreadAssertion {  },
    MaxSlippageAssertion {  },
    DoublingAssets {  },
    AssetMismatch {  },
    PairTypeMismatch {  },
    AutoStakeError {  },
    MigrationError {  },
    InsufficientFunds {  },
    InsufficientReserves {  },
    EmergencyDrained {  },
    EmergencyTimelockPending { effective_after: Timestamp },
    NoPendingEmergencyWithdraw {  },
    NothingToRecover {  },
}

/// An overflow of an amount.
pub open spec fn overflow(op: OverflowOperation) -> ContractError {
    ContractError::Std(StdError::Overflow(op))
}

/// A fixed message.
pub open spec fn generic(msg: &'static str) -> ContractError {
    ContractError::Std(StdError::Generic(msg))
}

/// An outcome of shared code, as an outcome of the pool.
pub open spec fn lift<T>(r: Result<T, StdError>) -> Result<T, ContractError> {
    match r {
        Ok(v) => Ok(v),
        Err(e) => Err(ContractError::Std(e)),
    }
}

/// Turns an outcome of shared code into an outcome of the pool.
pub fn in_pool<T>(r: Result<T, StdError>) -> (out: Result<T, ContractError>)
    ensures
        out == lift(r),
{
    match r {
        Ok(v) => Ok(v),
        Err(e) => Err(ContractError::Std(e)),
    }
}

pub open spec fn spec_sum(a: u128, b: u128) -> Result<u128, ContractError> {
    if a + b <= u128::MAX {
        Ok((a + b) as u128)
    } else {
        Err(overflow(OverflowOperation::Add))
    }
}

/// `a + b`, where it fits.
#[verifier::when_used_as_spec(spec_sum)]
pub fn sum(a: u128, b: u128) -> (r: Result<u128, ContractError>)
    ensures
        r == spec_sum(a, b),
{
    match a.checked_add(b) {
        Some(n) => Ok(n),
        None => Err(ContractError::Std(StdError::Overflow(OverflowOperation::Add))),
    }
}

pub open spec fn spec_difference(a: u128, b: u128) -> Result<u128, ContractError> {
    if a >= b {
        Ok((a - b) as u128)
    } else {
        Err(overflow(OverflowOperation::Sub))
    }
}

/// `a - b`, where it is not negative.
#[verifier::when_used_as_spec(spec_difference)]
pub fn difference(a: u128, b: u128) -> (r: Result<u128, ContractError>)
    ensures
        r == spec_difference(a, b),
{
    match a.checked_sub(b) {
        Some(n) => Ok(n),
        None => Err(ContractError::Std(StdError::Overflow(OverflowOperation::Sub))),
    }
}

pub open spec fn spec_product(a: u128, b: u128) -> Result<u128, ContractError> {
    if a * b <= u128::MAX {
        Ok((a * b) as u128)
    } else {
        Err(overflow(OverflowOperation::Mul))
    }
}

/// `a * b`, where it fits.
#[verifier::when_used_as_spec(spec_product)]
pub fn product(a: u128, b: u128) -> (r: Result<u128, ContractError>)
    ensures
        r == spec_product(a, b),
{
    match a.checked_mul(b) {
        Some(n) => Ok(n),
        None => Err(ContractError::Std(StdError::Overflow(OverflowOperation::Mul))),
    }
}

/// The message of an error.
pub open spec fn contract_error_text(e: ContractError) -> Seq<char> {
    match e {
        ContractError::Std(e) => std_error_text(e),
        ContractError::Unauthorized {  } => "Unauthorized"@,
        ContractError::SlippageExceeded { expected, actual, token } =>
            "Slippage exceeded: expected at least "@ + digits(expected as nat) + " "@ + token@
            + ", got "@ + digits(actual as nat),
        ContractError::RatioDeviationExceeded {
            expected_ratio,
            actual_ratio,
            max_deviation_bps,
            actual_deviation_bps,
        } => "Ratio deviation exceeded: expected "@ + decimal_text(expected_ratio) + ", actual "@
            + decimal_text(actual_ratio) + ", deviation "@ + digits(actual_deviation_bps as nat)
            + " bps of at most "@ + digits(max_deviation_bps as nat),
        ContractError::CannotMigrate { previous_contract } =>
            "Cannot migrate from different contract type: "@ + previous_contract@,
        ContractError::OraclePriceDeviation { oracle, twap } =>
            "Incorrect bluechip denom: provided: "@ + digits(oracle as nat) + ", required: "@
            + digits(twap as nat),
        ContractError::IncorrectNativeDenom { provided, required } =>
            "Incorrect bluechip denom: provided: "@ + provided@ + ", required: "@ + required@,
        ContractError::PositionLocked { .. } => ""@,
        ContractError::PoolPausedLowLiquidity {  } => "The pool is paused due to low liquidity, please supply liquidity before swapping"@,
        ContractError::NoDistributionInProgress {  } => "No distribution in progress"@,
        ContractError::InvalidFactory {  } => "The Factory address used is not permitted to create a pool"@,
        ContractError::InvalidThresholdParams { msg } => "Invalid threshold parameters: "@ + msg@,
        ContractError::ReentrancyGuard {  } => "Reentrancy detected"@,
        ContractError::ShortOfThreshold {  } => "You can not swap until the threshold is crossed. You must commit to transact with this pool"@,
        ContractError::TooFrequentCommits { .. } => "You are trying to commit too frequently."@,
        ContractError::DivideByZero => "Division by zero error"@,
        ContractError::InvalidPercent => "percent must be between 1 and 99"@,
        ContractError::ZeroAmount {  } => "Zero won't work."@,
        ContractError::TransactionExpired {  } => "Transaction deadline has passed"@,
        ContractError::MismatchAmount {  } => "Your commit amount does not match an amount designated by the creator of the pool."@,
        ContractError::InvalidFee {  } => "Fee is to great or to small for this transaction"@,
        ContractError::InvalidBeliefPrice {  } => "belief_price cannot be zero"@,
        ContractError::InvalidAmount {  } => "invalid amount of tokens"@,
        ContractError::InvalidNativeAmount {  } => "invalid bluechip amount"@,
        ContractError::InvalidOraclePrice {  } => "Oracle price is invalid (zero or negative)"@,
        ContractError::InsufficientLiquidity {  } => "the pool is missing needed liquidity to carry out transaction"@,
        ContractError::InsufficientLiquidityMinted {  } => "Insufficient liquidity minted"@,
        ContractError::UnauthorizedNotCreator {  } => "Unauthorized: Only creator can perform this action"@,
        ContractError::InvalidPaymentTiers {  } => "Invalid payment tiers: cannot be empty"@,
        ContractError::Cw20DirectSwap {  } => "CW20 tokens can be swapped via Cw20::Send message only"@,
        ContractError::NonSupported {  } => "Operation non supported"@,
        ContractError::InvalidZeroAmount {  } => "Event of zero transfer"@,
        ContractError::MaxSpreadAssertion {  } => "Operation exceeds max spread limit"@,
        ContractError::AllowedSpreadAssertion {  } => "Provided spread amount exceeds allowed limit"@,
        ContractError::MaxSlippageAssertion {  } => "Operation exceeds max splippage tolerance"@,
        ContractError::DoublingAssets {  } => "Doubling assets in asset infos"@,
        ContractError::AssetMismatch {  } => "Asset mismatch between the requested and the stored asset in contract"@,
        ContractError::PairTypeMismatch {  } => "Pair type mismatch. Check factory pair configs"@,
        ContractError::AutoStakeError {  } => "Generator address is not set in factory. Cannot auto-stake"@,
        ContractError::MigrationError {  } => "Failed to migrate the contract"@,
        ContractError::InsufficientFunds {  } => "InsufficientFunds"@,
        ContractError::InsufficientReserves {  } => "pool can not cover reserves"@,
        ContractError::EmergencyDrained {  } => "The pool has been drained by an emergency withdrawal"@,
        ContractError::EmergencyTimelockPending { .. } => "Emergency withdraw timelock not yet elapsed"@,
        ContractError::NoPendingEmergencyWithdraw {  } => "No emergency withdrawal is pending"@,
        ContractError::NothingToRecover {  } => "Nothing to recover"@,
    }
}

impl ContractError {
    /// The message of the error.
    pub fn text(&self) -> (r: String)
        ensures
            r@ == contract_error_text(*self),
    {
        match self {
            ContractError::Std(e) => e.text(),
            ContractError::Unauthorized {  } => "Unauthorized".to_string(),
            ContractError::SlippageExceeded { expected, actual, token } =>
                "Slippage exceeded: expected at least ".to_string().concat(
                number(*expected).as_str(),
            ).concat(" ").concat(token.as_str()).concat(", got ").concat(number(*actual).as_str()),
            ContractError::RatioDeviationExceeded {
                expected_ratio,
                actual_ratio,
                max_deviation_bps,
                actual_deviation_bps,
            } => "Ratio deviation exceeded: expected ".to_string().concat(
                decimal_to_text(*expected_ratio).as_str(),
            ).concat(", actual ").concat(decimal_to_text(*actual_ratio).as_str()).concat(
                ", deviation ",
            ).concat(number(*actual_deviation_bps as u128).as_str()).concat(
                " bps of at most ",
            ).concat(number(*max_deviation_bps as u128).as_str()),
            ContractError::CannotMigrate { previous_contract } =>
                "Cannot migrate from different contract type: ".to_string().concat(
                previous_contract.as_str(),
            ),
            ContractError::OraclePriceDeviation { oracle, twap } =>
                "Incorrect bluechip denom: provided: ".to_string().concat(
                number(*oracle).as_str(),
            ).concat(", required: ").concat(number(*twap).as_str()),
            ContractError::IncorrectNativeDenom { provided, required } =>
                "Incorrect bluechip denom: provided: ".to_string().concat(
                provided.as_str(),
            ).concat(", required: ").concat(required.as_str()),
            ContractError::PositionLocked { .. } => "".to_string(),
            ContractError::PoolPausedLowLiquidity {  } => "The pool is paused due to low liquidity, please supply liquidity before swapping".to_string(),
            ContractError::NoDistributionInProgress {  } => "No distribution in progress".to_string(),
            ContractError::InvalidFactory {  } => "The Factory address used is not permitted to create a pool".to_string(),
            ContractError::InvalidThresholdParams { msg } => "Invalid threshold parameters: ".to_string().concat(msg),
            ContractError::ReentrancyGuard {  } => "Reentrancy detected".to_string(),
            ContractError::ShortOfThreshold {  } => "You can not swap until the threshold is crossed. You must commit to transact with this pool".to_string(),
            ContractError::TooFrequentCommits { .. } => "You are trying to commit too frequently.".to_string(),
            ContractError::DivideByZero => "Division by zero error".to_string(),
            ContractError::InvalidPercent => "percent must be between 1 and 99".to_string(),
            ContractError::ZeroAmount {  } => "Zero won't work.".to_string(),
            ContractError::TransactionExpired {  } => "Transaction deadline has passed".to_string(),
            ContractError::MismatchAmount {  } => "Your commit amount does not match an amount designated by the creator of the pool.".to_string(),
            ContractError::InvalidFee {  } => "Fee is to great or to small for this transaction".to_string(),
            ContractError::InvalidBeliefPrice {  } => "belief_price cannot be zero".to_string(),
            ContractError::InvalidAmount {  } => "invalid amount of tokens".to_string(),
            ContractError::InvalidNativeAmount {  } => "invalid bluechip amount".to_string(),
            ContractError::InvalidOraclePrice {  } => "Oracle price is invalid (zero or negative)".to_string(),
            ContractError::InsufficientLiquidity {  } => "the pool is missing needed liquidity to carry out transaction".to_string(),
            ContractError::InsufficientLiquidityMinted {  } => "Insufficient liquidity minted".to_string(),
            ContractError::UnauthorizedNotCreator {  } => "Unauthorized: Only creator can perform this action".to_string(),
            ContractError::InvalidPaymentTiers {  } => "Invalid payment tiers: cannot be empty".to_string(),
            ContractError::Cw20DirectSwap {  } => "CW20 tokens can be swapped via Cw20::Send message only".to_string(),
            ContractError::NonSupported {  } => "Operation non supported".to_string(),
            ContractError::InvalidZeroAmount {  } => "Event of zero transfer".to_string(),
            ContractError::MaxSpreadAssertion {  } => "Operation exceeds max spread limit".to_string(),
            ContractError::AllowedSpreadAssertion {  } => "Provided spread amount exceeds allowed limit".to_string(),
            ContractError::MaxSlippageAssertion {  } => "Operation exceeds max splippage tolerance".to_string(),
            ContractError::DoublingAssets {  } => "Doubling assets in asset infos".to_string(),
            ContractError::AssetMismatch {  } => "Asset mismatch between the requested and the stored asset in contract".to_string(),
            ContractError::PairTypeMismatch {  } => "Pair type mismatch. Check factory pair configs".to_string(),
            ContractError::AutoStakeError {  } => "Generator address is not set in factory. Cannot auto-stake".to_string(),
            ContractError::MigrationError {  } => "Failed to migrate the contract".to_string(),
            ContractError::InsufficientFunds {  } => "InsufficientFunds".to_string(),
            ContractError::InsufficientReserves {  } => "pool can not cover reserves".to_string(),
            ContractError::EmergencyDrained {  } => "The pool has been drained by an emergency withdrawal".to_string(),
            ContractError::EmergencyTimelockPending { .. } => "Emergency withdraw timelock not yet elapsed".to_string(),
            ContractError::NoPendingEmergencyWithdraw {  } => "No emergency withdrawal is pending".to_string(),
            ContractError::NothingToRecover {  } => "Nothing to recover".to_string(),
        }
    }
}

} // verus!
