//! The entities of the ledger store, as the analytics read them.

pub mod amount;
pub mod block;
pub mod coin;
pub mod pool;
pub mod reserve;
pub mod swap;
pub mod top_pool;
