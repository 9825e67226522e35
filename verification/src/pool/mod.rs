//! The creator pool: commits up to a funding threshold, a constant-product pool from
//! there on.

pub mod admin;
pub mod admin_laws;
pub mod batch_laws;
pub mod commit;
pub mod commit_laws;
pub mod contract;
pub mod error;
pub mod generic_helpers;
pub mod helper_laws;
pub mod laws;
pub mod liquidity_helpers;
pub mod msg;
pub mod payments;
pub mod position_laws;
pub mod query;
pub mod query_laws;
pub mod range;
pub mod range_laws;
pub mod refusal_laws;
pub mod report_laws;
pub mod state;
pub mod swap_helper;
pub mod swap_laws;
