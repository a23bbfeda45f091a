//! Receipt-construction core for a smart-contract execution host.
//!
//! While a contract function runs it may schedule outgoing cross-account
//! operations ("receipts"): transfers, deployments, function calls, key and
//! account management.  This crate accumulates those pending receipts,
//! enforces dependency validity between them, divides leftover gas among the
//! function calls that requested a weighted share, and finally drains the
//! accumulated state into protocol-ready receipt records.

pub mod actions;
pub mod crypto;
pub mod errors;
pub mod ids;
pub mod laws;
pub mod manager;
pub mod receipts;
