//! What the router remembers between calls: its settings, and nothing about pools.

use vstd::prelude::*;

use crate::chain::Addr;
use crate::number::Timestamp;

verus! {

/// The most hops of a route.
pub const MAX_HOPS: usize = 3;

/// How long a change of the settings has to be known before it is made: two days.
pub const ROUTER_TIMELOCK_SECONDS: u64 = 172_800;

/// The settings of the router.
#[derive(Debug, PartialEq)]
pub struct Config {
    pub factory_addr: Addr,
    /// The native denomination that most routes pass through.
    pub bluechip_denom: String,
    /// Who may change the settings.
    pub admin: Addr,
}

/// A change of the settings that waits; a field that is not given stays as it is.
#[derive(Debug, PartialEq)]
pub struct PendingConfigUpdate {
    pub admin: Option<String>,
    pub factory_addr: Option<String>,
    pub effective_after: Timestamp,
}

/// All that the router remembers.
#[derive(Debug, PartialEq)]
pub struct RouterStore {
    pub config: Config,
    pub pending_config: Option<PendingConfigUpdate>,
}

} // verus!
