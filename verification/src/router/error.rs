//! The errors of the router. An error inside a hop carries the hop's index and pool.

use vstd::prelude::*;
use vstd::string::*;

use crate::error::{std_error_text, StdError};
use crate::text::{digits, number};

verus! {

/// Why the router refuses a call.
#[allow(inconsistent_fields)]
#[derive(Debug, PartialEq)]
pub enum RouterError {
    Std(StdError),
    Unauthorized,
    EmptyRoute,
    MaxHopsExceeded { max: usize, got: usize },
    ZeroAmount,
    SameInputOutput,
    /// A hop asks for another token than the next hop offers.
    RouteDiscontinuity { hop_index: usize, next_hop_index: usize, ask: String, next_offer: String },
    /// A hop declares another pair than its pool has.
    HopAssetMismatch { hop_index: usize, pool_addr: String, declared: String, actual: String },
    HopFailed { hop_index: usize, pool_addr: String, reason: String },
    PoolInCommitPhase { hop_index: usize, pool_addr: String, raised: u128, target: u128 },
    DeadlineExceeded { deadline: u64, current: u64 },
    SlippageExceeded { minimum: u128, actual: u128 },
    ConfigUpdateAlreadyPending,
    NoPendingConfigUpdate,
    TimelockNotExpired { effective_after: u64 },
}

/// An outcome of shared code, as an outcome of the router.
pub open spec fn lift<T>(r: Result<T, StdError>) -> Result<T, RouterError> {
    match r {
        Ok(v) => Ok(v),
        Err(e) => Err(RouterError::Std(e)),
    }
}

/// Turns an outcome of shared code into an outcome of the router.
pub fn in_router<T>(r: Result<T, StdError>) -> (out: Result<T, RouterError>)
    ensures
        out == lift(r),
{
    match r {
        Ok(v) => Ok(v),
        Err(e) => Err(RouterError::Std(e)),
    }
}

/// The message of an error.
pub open spec fn router_error_text(e: RouterError) -> Seq<char> {
    match e {
        RouterError::Std(e) => std_error_text(e),
        RouterError::Unauthorized => "Unauthorized"@,
        RouterError::EmptyRoute => "Route is empty"@,
        RouterError::MaxHopsExceeded { max, got } => "Route exceeds the maximum of "@ + digits(
            max as nat,
        ) + " hops (got "@ + digits(got as nat) + ")"@,
        RouterError::ZeroAmount => "Offer amount must be greater than zero"@,
        RouterError::SameInputOutput => "Route input and final output must differ"@,
        RouterError::RouteDiscontinuity { hop_index, next_hop_index, ask, next_offer } =>
            "Route discontinuity at hop "@ + digits(hop_index as nat) + " -> "@ + digits(
            next_hop_index as nat,
        ) + ": "@ + ask@ + " -> "@ + next_offer@,
        RouterError::HopAssetMismatch { hop_index, pool_addr, declared, actual } => "Hop "@
            + digits(hop_index as nat) + " on pool "@ + pool_addr@ + " declares "@ + declared@
            + " but the pool pair is "@ + actual@,
        RouterError::HopFailed { hop_index, pool_addr, reason } => "Hop "@ + digits(
            hop_index as nat,
        ) + " on pool "@ + pool_addr@ + " failed: "@ + reason@,
        RouterError::PoolInCommitPhase { hop_index, pool_addr, raised, target } => "Pool "@
            + pool_addr@ + " at hop "@ + digits(hop_index as nat)
            + " is still in its commit phase (raised "@ + digits(raised as nat) + ", target "@
            + digits(target as nat) + ")"@,
        RouterError::DeadlineExceeded { deadline, current } =>
            "Transaction deadline exceeded (deadline "@ + digits(deadline as nat) + ", current "@
            + digits(current as nat) + ")"@,
        RouterError::SlippageExceeded { minimum, actual } =>
            "Slippage exceeded: minimum receive "@ + digits(minimum as nat) + ", actual "@ + digits(
            actual as nat,
        ),
        RouterError::ConfigUpdateAlreadyPending => "A config update is already pending"@,
        RouterError::NoPendingConfigUpdate => "No config update is pending"@,
        RouterError::TimelockNotExpired { effective_after } =>
            "Timelock not expired (effective after "@ + digits(effective_after as nat) + ")"@,
    }
}

impl RouterError {
    /// The message of the error.
    pub fn text(&self) -> (r: String)
        ensures
            r@ == router_error_text(*self),
    {
        match self {
            RouterError::Std(e) => e.text(),
            RouterError::Unauthorized => "Unauthorized".to_string(),
            RouterError::EmptyRoute => "Route is empty".to_string(),
            RouterError::MaxHopsExceeded { max, got } =>
                "Route exceeds the maximum of ".to_string().concat(
                number(*max as u128).as_str(),
            ).concat(" hops (got ").concat(number(*got as u128).as_str()).concat(")"),
            RouterError::ZeroAmount => "Offer amount must be greater than zero".to_string(),
            RouterError::SameInputOutput => "Route input and final output must differ".to_string(),
            RouterError::RouteDiscontinuity { hop_index, next_hop_index, ask, next_offer } =>
                "Route discontinuity at hop ".to_string().concat(
                number(*hop_index as u128).as_str(),
            ).concat(" -> ").concat(number(*next_hop_index as u128).as_str()).concat(
                ": ",
            ).concat(ask.as_str()).concat(" -> ").concat(next_offer.as_str()),
            RouterError::HopAssetMismatch { hop_index, pool_addr, declared, actual } =>
                "Hop ".to_string().concat(number(*hop_index as u128).as_str()).concat(
                " on pool ",
            ).concat(pool_addr.as_str()).concat(" declares ").concat(declared.as_str()).concat(
                " but the pool pair is ",
            ).concat(actual.as_str()),
            RouterError::HopFailed { hop_index, pool_addr, reason } => "Hop ".to_string().concat(
                number(*hop_index as u128).as_str(),
            ).concat(" on pool ").concat(pool_addr.as_str()).concat(" failed: ").concat(
                reason.as_str(),
            ),
            RouterError::PoolInCommitPhase { hop_index, pool_addr, raised, target } =>
                "Pool ".to_string().concat(pool_addr.as_str()).concat(" at hop ").concat(
                number(*hop_index as u128).as_str(),
            ).concat(" is still in its commit phase (raised ").concat(
                number(*raised).as_str(),
            ).concat(", target ").concat(number(*target).as_str()).concat(")"),
            RouterError::DeadlineExceeded { deadline, current } =>
                "Transaction deadline exceeded (deadline ".to_string().concat(
                number(*deadline as u128).as_str(),
            ).concat(", current ").concat(number(*current as u128).as_str()).concat(")"),
            RouterError::SlippageExceeded { minimum, actual } =>
                "Slippage exceeded: minimum receive ".to_string().concat(
                number(*minimum).as_str(),
            ).concat(", actual ").concat(number(*actual).as_str()),
            RouterError::ConfigUpdateAlreadyPending =>
                "A config update is already pending".to_string(),
            RouterError::NoPendingConfigUpdate => "No config update is pending".to_string(),
            RouterError::TimelockNotExpired { effective_after } =>
                "Timelock not expired (effective after ".to_string().concat(
                number(*effective_after as u128).as_str(),
            ).concat(")"),
        }
    }
}

} // verus!
