//! Price and liquidity analytics over a ledger of decentralized-exchange
//! swaps: block arithmetic, directional swap prices, the price-since query
//! and the ranking of pools by traded volume.

pub mod account;
pub mod email;
pub mod error;
pub mod models;
pub mod qury;
pub mod radix;
pub mod route;
pub mod sql;
pub mod text;
pub mod timer;
