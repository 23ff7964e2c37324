//! A constant-product automated market maker with a hook-aware transfer
//! protocol.
//!
//! The crate covers the pricing and liquidity mathematics of the pool, the
//! governance state of a market, the derived-authority scheme that lets a
//! pool custody assets without a private key, and the trade-counter hook
//! that audits every asset movement.  The hosting ledger itself (account
//! storage, rent, signature checks) and the raw token-transfer primitive are
//! outside collaborators: they are reached only through narrow trusted
//! declarations, and everything around those calls is verified.

pub mod authority;
pub mod counter;
pub mod errors;
pub mod hook;
pub mod liquidity;
pub mod math;
pub mod state;
pub mod swap;
pub mod transfer;
