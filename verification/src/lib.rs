//! The creator pool and the multi-hop router of the bluechip exchange.

pub mod asset;
pub mod chain;
pub mod error;
pub mod number;
pub mod pool;
pub mod router;
pub mod table;
pub mod text;
pub mod token_laws;
