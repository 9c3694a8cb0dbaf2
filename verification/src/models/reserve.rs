//! Reserves of a pool and their summary over a range of blocks.

use crate::models::amount::Amount;
use crate::models::block::Number;
use vstd::prelude::*;

verus! {

/// The two-sided balance of a pool at a block, each side as the store's
/// decimal text.
#[derive(Debug)]
pub struct Reserve {
    pub block_number: u32,
    pub x: String,
    pub y: String,
}

/// Statistics of one side of a pool's reserves over the blocks after
/// `start_block_number` up to and including `stop_block_number`: how many
/// samples, their population standard deviation, the least and the greatest.
#[derive(Debug)]
pub struct Summary {
    pub start_block_number: Number,
    pub stop_block_number: Number,
    pub count: u64,
    pub stddev: Option<Amount>,
    pub min: Option<Amount>,
    pub max: Option<Amount>,
}

/// The query for the latest reserve of a pool.
pub const LATEST_RESERVE_SQL: &'static str =
    "SELECT * FROM reserves WHERE contract_address = $1 order by block_number desc limit 1";

/// The query that summarizes the token 0 side of a pool's reserves.
pub const SUMMARIZE_X_SQL: &'static str =
    "SELECT stddev_pop(x::numeric), count(x), min(x::numeric), max(x::numeric)  FROM reserves WHERE contract_address = $1 and block_number > $2 and block_number <= $3";

/// The query that summarizes the token 1 side of a pool's reserves.
pub const SUMMARIZE_Y_SQL: &'static str =
    "SELECT stddev_pop(y::numeric), count(y), min(y::numeric), max(y::numeric)  FROM reserves WHERE contract_address = $1 and block_number > $2 and block_number <= $3";

/// The text of an amount, as a response carries it.
pub fn bigdecimal_to_str(x: &Amount) -> (text: String)
    ensures
        text@ == x.text(),
{
    x.to_text()
}

/// The text of an amount that may be absent.
pub fn optbigdecimal_to_str(x: &Option<Amount>) -> (text: Option<String>)
    ensures
        text.is_some() == x.is_some(),
        x.is_some() ==> text.unwrap()@ == x.unwrap().text(),
{
    match x {
        Some(x) => Some(bigdecimal_to_str(x)),
        None => None,
    }
}

impl Reserve {
    /// The reserve that a row of the `reserves` table stands for.
    pub fn from_row(block_number: i32, x: String, y: String) -> (reserve: Reserve)
        ensures
            reserve == (Reserve { block_number: block_number as u32, x, y }),
    {
        Reserve { block_number: block_number as u32, x, y }
    }
}

/// The query that summarizes the side of a pool's reserves that is not the
/// reference token's: token 0's where token 1 is the reference token,
/// token 1's where it is not.
pub fn summary_query(cash_token_is_1: bool) -> (sql: &'static str)
    ensures
        sql == if cash_token_is_1 {
            SUMMARIZE_X_SQL
        } else {
            SUMMARIZE_Y_SQL
        },
{
    if cash_token_is_1 {
        SUMMARIZE_X_SQL
    } else {
        SUMMARIZE_Y_SQL
    }
}

/// The summary that the one row of a summary query stands for, over the
/// range that the query was bound to.
pub fn summarize(
    start_block_number: &Number,
    stop_block_number: &Number,
    stddev_pop: Option<Amount>,
    count: i64,
    min: Option<Amount>,
    max: Option<Amount>,
) -> (summary: Summary)
    ensures
        summary == (Summary {
            start_block_number: *start_block_number,
            stop_block_number: *stop_block_number,
            count: count as u64,
            stddev: stddev_pop,
            min,
            max,
        }),
{
    Summary {
        start_block_number: *start_block_number,
        stop_block_number: *stop_block_number,
        stddev: stddev_pop,
        count: count as u64,
        min,
        max,
    }
}

} // verus!
