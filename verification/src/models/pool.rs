//! Pools: two-token liquidity venues, and what a query decorates them with.

use crate::models::amount::Amount;
use crate::models::coin::{cash_token, is_cash_token, Coin};
use crate::models::reserve::{Reserve, Summary};
use vstd::prelude::*;

verus! {

/// A pool, identified by its contract address. All but the first three
/// fields are decoration of one query's scope: the store holds none of them.
#[derive(Debug)]
pub struct Pool {
    pub contract_address: String,
    pub token0: String,
    pub token1: String,
    pub reserve: Option<Reserve>,
    pub coin0: Option<Coin>,
    pub coin1: Option<Coin>,
    pub count0: Option<i64>,
    pub count1: Option<i64>,
    pub reserve_summary: Option<Summary>,
    pub sum0: Option<Amount>,
    pub sum0_eth: Option<Amount>,
    pub sum1: Option<Amount>,
    pub sum1_eth: Option<Amount>,
    pub sum_eth: Option<Amount>,
}

/// The query for a pool by its contract address.
pub const POOL_SQL: &'static str = "SELECT * FROM pools WHERE contract_address = $1";

impl Pool {
    /// The pool with these three fields and no decoration.
    pub open spec fn bare(contract_address: String, token0: String, token1: String) -> Pool {
        Pool {
            contract_address,
            token0,
            token1,
            reserve: None,
            coin0: None,
            coin1: None,
            count0: None,
            count1: None,
            reserve_summary: None,
            sum0: None,
            sum0_eth: None,
            sum1: None,
            sum1_eth: None,
            sum_eth: None,
        }
    }

    /// The pool that a row of the `pools` table stands for, undecorated.
    pub fn from_row(contract_address: String, token0: String, token1: String) -> (pool: Pool)
        ensures
            pool == Pool::bare(contract_address, token0, token1),
    {
        Pool {
            contract_address,
            token0,
            token1,
            reserve: None,
            coin0: None,
            coin1: None,
            count0: None,
            count1: None,
            reserve_summary: None,
            sum0: None,
            sum0_eth: None,
            sum1: None,
            sum1_eth: None,
            sum_eth: None,
        }
    }

    /// Whether one of the pool's two tokens is the reference token.
    pub open spec fn holds_cash_token(&self) -> bool {
        cash_token(self.token0@) || cash_token(self.token1@)
    }

    /// Whether the pool carries a reserve summary exactly if it holds the
    /// reference token.
    pub open spec fn summary_follows_cash(&self) -> bool {
        self.reserve_summary.is_some() <==> self.holds_cash_token()
    }

    /// Whether one of the pool's two tokens is the reference token.
    pub fn has_cash_token(&self) -> (cash: bool)
        ensures
            cash == self.holds_cash_token(),
    {
        self.cash_token_is_0() || self.cash_token_is_1()
    }

    /// Whether token 0 is the reference token.
    pub fn cash_token_is_0(&self) -> (cash: bool)
        ensures
            cash == cash_token(self.token0@),
    {
        is_cash_token(self.token0.as_str())
    }

    /// Whether token 1 is the reference token.
    pub fn cash_token_is_1(&self) -> (cash: bool)
        ensures
            cash == cash_token(self.token1@),
    {
        is_cash_token(self.token1.as_str())
    }
}

} // verus!
