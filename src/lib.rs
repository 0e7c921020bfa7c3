//! A constant-product market maker: a registry of trading pairs and the
//! per-pair engine that holds reserves, issues liquidity shares and checks
//! the invariant on every trade.

pub mod account;
pub mod wide;
pub mod ledger;
pub mod pair;
pub mod factory;
pub mod laws;
