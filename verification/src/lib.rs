//! A pooled-investment vault ledger: users deposit a base asset, receive
//! fungible claim-shares whose value floats with accrued yield, and may exit
//! through three withdrawal paths (immediate, time-locked, instant-with-fee).
//!
//! The engine is a pure state machine over plain integers: the host shell
//! supplies caller identities, timestamps and attached amounts, and performs
//! the actual transfers that each operation's result calls for.

pub mod errors;
pub mod events;
pub mod guards;
pub mod laws;
pub mod math;
pub mod positions;
pub mod rate_limiter;
pub mod requests;
pub mod vault;
