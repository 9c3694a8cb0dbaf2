//! A pool with its reserve and the inflow of each of its tokens.

use crate::models::amount::Amount;
use crate::models::pool::Pool;
use crate::models::reserve::Reserve;
use vstd::prelude::*;

verus! {

/// A pool, its latest reserve and the sums of what entered it of token 0
/// and of token 1.
#[derive(Debug)]
pub struct TopPool {
    pub pool: Pool,
    pub reserve: Reserve,
    pub sum0: Amount,
    pub sum1: Amount,
}

/// The pool with its reserve and its two sums.
pub fn new(pool: Pool, reserve: Reserve, sum0: Amount, sum1: Amount) -> (top: TopPool)
    ensures
        top == (TopPool { pool, reserve, sum0, sum1 }),
{
    TopPool { pool, reserve, sum0, sum1 }
}

} // verus!
