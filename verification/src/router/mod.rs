//! The multi-hop router: it runs a swap through several pools in one transaction. It holds
//! no prices of its own; it checks the route, puts the hops in sequence, and holds the
//! final output to a minimum and a deadline.

pub mod contract;
pub mod error;
pub mod execution;
pub mod laws;
pub mod msg;
pub mod route_laws;
pub mod simulation;
pub mod state;
