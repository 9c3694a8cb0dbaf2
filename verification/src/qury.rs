//! The price-since query: the latest swap of a pool whose price lies under
//! a bound, with its time, its tokens and its price in the reference
//! currency.
//!
//! The query reads the store six times. Each read is a lookup value that
//! says what to fetch; resolving it with what the store returned gives the
//! next lookup, the response at the end, or the error that ends the query.

use crate::error::{append_spaced, zero_rows, zero_rows_text, QueryError};
use crate::models::block::{Block, BLOCK_SQL};
use crate::models::coin::{Coin, COIN_SQL};
use crate::models::pool::{Pool, POOL_SQL};
use crate::models::swap::Swap;
use crate::text::{push_signed_decimal, signed_decimal};
use vstd::prelude::*;

verus! {

/// The pool whose swaps give prices in the reference currency.
pub const USDC_POOL: &'static str = "b4e16d0168e52d35cacd2c6185b44281ec28c9dc";

/// The query for a swap of a pool at a block.
pub const SWAP_AT_SQL: &'static str =
    "select * from swaps where pool_contract_address = $1 and block_number = $2 limit 1";

/// The form of a block's time in a response: UTC, `YYYY-MM-DD HH:MM:SS`.
pub const BLOCK_TIME_FORMAT: &'static str = "[year]-[month]-[day] [hour]:[minute]:[second]";

/// The text of the UTC time `timestamp` seconds after the Unix epoch in the
/// form that `description` describes, as `time` gives it; `None` where
/// `time` rejects the description or cannot write the time in it.
pub uninterp spec fn utc_text(timestamp: u32, description: Seq<char>) -> Option<Seq<char>>;

/// `time`: reads the description with `format_description::parse`, makes
/// the moment with `OffsetDateTime::from_unix_timestamp` and writes it with
/// `OffsetDateTime::format`. An error of any of the three gives `None`. The
/// claim is that the outcome is a function of the two arguments.
#[verifier::external_body]
fn format_utc(timestamp: u32, description: &str) -> (text: Option<String>)
    ensures
        text.is_some() == utc_text(timestamp, description@).is_some(),
        text.is_some() ==> text.unwrap()@ == utc_text(timestamp, description@).unwrap(),
{
    let items = time::format_description::parse(description).ok()?;
    let moment = time::OffsetDateTime::from_unix_timestamp(timestamp as i64).ok()?;
    moment.format(&items).ok()
}

/// The time of a block as a response shows it.
pub fn block_time(timestamp: u32) -> (text: Result<String, QueryError>)
    ensures
        match utc_text(timestamp, BLOCK_TIME_FORMAT@) {
            Some(t) => text matches Ok(s) && s@ == t,
            None => text matches Err(QueryError::Upstream(m)) && m@ == "block time"@,
        },
{
    match format_utc(timestamp, BLOCK_TIME_FORMAT) {
        Some(text) => Ok(text),
        None => Err(QueryError::Upstream(String::from_str("block time"))),
    }
}

/// The column of the amount that leaves the pool in a swap of `direction`.
pub open spec fn out_column(direction: bool) -> Seq<char> {
    if direction {
        "out1"@
    } else {
        "out0"@
    }
}

/// The column of the inflow, in the reference unit, of a swap of
/// `direction`.
pub open spec fn in_column(direction: bool) -> Seq<char> {
    if direction {
        "in0_eth"@
    } else {
        "in1_eth"@
    }
}

/// The expression of a swap's rate: the inflow over the outflow, the
/// outflow scaled by ten to the power of the decimal difference `$2`.
pub open spec fn rate_sql(direction: bool) -> Seq<char> {
    in_column(direction) + " / ("@ + out_column(direction) + " * power(10,$2))"@
}

/// The query for the latest swap of pool `$1` with a positive outflow and a
/// rate under the bound `$3`.
pub open spec fn swap_price_sql(direction: bool) -> Seq<char> {
    "select *, "@ + rate_sql(direction)
        + " as price_eth from swaps where pool_contract_address = $1 and "@ + out_column(
        direction,
    ) + " > 0 and "@ + rate_sql(direction) + " < $3 order by block_number desc limit 1"@
}

/// By how many decimals the rate is scaled: the decimals of the token that
/// enters less those of the token that leaves.
pub open spec fn decimal_difference(direction: bool, token0: Coin, token1: Coin) -> int {
    if direction {
        token0.decimals - token1.decimals
    } else {
        token1.decimals - token0.decimals
    }
}

/// The read of the latest swap under a price bound: the query and what it
/// is bound to.
#[derive(Debug)]
pub struct SwapQuery {
    pub sql: String,
    pub pool_contract_address: String,
    pub decimals: i64,
    pub price: String,
    pub direction: bool,
}

impl SwapQuery {
    /// The message for this query where it found no row.
    pub open spec fn zero_rows_message(&self) -> Seq<char> {
        zero_rows_text(
            self.sql@,
            seq![self.pool_contract_address@, signed_decimal(self.decimals as int), self.price@],
        )
    }

    /// What the read has found: the swap and its rate, or why there is none.
    /// No row is `NotFound`, with the query and its bound values; a failure
    /// of the store is `Upstream`, with the store's words.
    pub fn outcome(&self, found: Result<Option<(String, Swap)>, String>) -> (outcome: Result<
        (String, Swap),
        QueryError,
    >)
        ensures
            match found {
                Ok(Some(row)) => outcome == Ok::<(String, Swap), QueryError>(row),
                Ok(None) => outcome matches Err(QueryError::NotFound(m)) && m@
                    == self.zero_rows_message(),
                Err(cause) => outcome == Err::<(String, Swap), QueryError>(
                    QueryError::Upstream(cause),
                ),
            },
    {
        match found {
            Ok(Some(row)) => Ok(row),
            Ok(None) => {
                let mut message = String::from_str("0 rows:");
                append_spaced(&mut message, self.sql.as_str());
                append_spaced(&mut message, self.pool_contract_address.as_str());
                let mut decimals = String::new();
                push_signed_decimal(&mut decimals, self.decimals);
                append_spaced(&mut message, decimals.as_str());
                append_spaced(&mut message, self.price.as_str());
                proof {
                    let params = seq![
                        self.pool_contract_address@,
                        signed_decimal(self.decimals as int),
                        self.price@,
                    ];
                    let two = params.drop_last();
                    let one = two.drop_last();
                    let none = one.drop_last();
                    assert(decimals@ =~= signed_decimal(self.decimals as int));
                    assert(two =~= seq![params[0], params[1]]);
                    assert(one =~= seq![params[0]]);
                    assert(none =~= Seq::<Seq<char>>::empty());
                    assert(zero_rows_text(self.sql@, none) == "0 rows:"@ + seq![' '] + self.sql@);
                    assert(zero_rows_text(self.sql@, one) == zero_rows_text(self.sql@, none)
                        + seq![' '] + params[0]);
                    assert(zero_rows_text(self.sql@, two) == zero_rows_text(self.sql@, one) + seq![
                        ' ',
                    ] + params[1]);
                    assert(zero_rows_text(self.sql@, params) == zero_rows_text(self.sql@, two)
                        + seq![' '] + params[2]);
                }
                Err(QueryError::NotFound(message))
            },
            Err(cause) => Err(QueryError::Upstream(cause)),
        }
    }
}

/// The text of the rate expression.
fn rate_expression(direction: bool) -> (sql: String)
    ensures
        sql@ == rate_sql(direction),
{
    let mut sql = String::from_str(if direction { "in0_eth" } else { "in1_eth" });
    sql.append(" / (");
    sql.append(if direction { "out1" } else { "out0" });
    sql.append(" * power(10,$2))");
    sql
}

/// The read of the latest swap of a pool whose rate in `direction` lies
/// under `price`, the rate scaled by `decimals`.
pub fn swap_price_since(
    pool_contract_address: &str,
    direction: bool,
    price: String,
    decimals: i64,
) -> (query: SwapQuery)
    ensures
        query.sql@ == swap_price_sql(direction),
        query.pool_contract_address@ == pool_contract_address@,
        query.decimals == decimals,
        query.price == price,
        query.direction == direction,
{
    let rate = rate_expression(direction);
    let mut sql = String::from_str("select *, ");
    sql.append(rate.as_str());
    sql.append(" as price_eth from swaps where pool_contract_address = $1 and ");
    sql.append(if direction { "out1" } else { "out0" });
    sql.append(" > 0 and ");
    sql.append(rate.as_str());
    sql.append(" < $3 order by block_number desc limit 1");
    SwapQuery {
        sql,
        pool_contract_address: String::from_str(pool_contract_address),
        decimals,
        price,
        direction,
    }
}

/// The price that the swap found at a block shows in `direction`: the
/// store's failure is `Upstream`, a swap that shows no price is `NotFound`.
pub fn pool_price_at(direction: bool, found: Result<Swap, String>) -> (price: Result<
    String,
    QueryError,
>)
    ensures
        match found {
            Ok(swap) => if swap.priced(direction) {
                price matches Ok(p) && p@ == swap.price_text(direction)
            } else {
                price matches Err(QueryError::NotFound(m)) && m@ == "swap without a price"@
            },
            Err(cause) => price == Err::<String, QueryError>(QueryError::Upstream(cause)),
        },
{
    match found {
        Ok(swap) => match swap.checked_price(direction) {
            Some(price) => Ok(price),
            None => Err(QueryError::NotFound(String::from_str("swap without a price"))),
        },
        Err(cause) => Err(QueryError::Upstream(cause)),
    }
}

/// What a price-since query answers.
#[derive(Debug)]
pub struct PoolSinceResponse {
    /// The time of the swap's block, UTC.
    pub block_time: String,
    /// The rate of the swap, as the store computed it.
    pub price: String,
    /// The price in the reference currency at the swap's block.
    pub cash: String,
    pub token0: Coin,
    pub token1: Coin,
    pub swap: Swap,
}

/// The first read: the pool.
#[derive(Debug)]
pub struct PoolLookup {
    pub pool_contract_address: String,
    pub direction: bool,
    pub bound: String,
}

/// The second read: the pool's token 0.
#[derive(Debug)]
pub struct Token0Lookup {
    pub pool_contract_address: String,
    pub direction: bool,
    pub bound: String,
    pub pool: Pool,
}

/// The third read: the pool's token 1.
#[derive(Debug)]
pub struct Token1Lookup {
    pub pool_contract_address: String,
    pub direction: bool,
    pub bound: String,
    pub pool: Pool,
    pub token0: Coin,
}

/// The fourth read: the latest swap under the bound.
#[derive(Debug)]
pub struct SwapLookup {
    pub token0: Coin,
    pub token1: Coin,
    pub query: SwapQuery,
}

/// The fifth read: the block of the swap.
#[derive(Debug)]
pub struct BlockLookup {
    pub token0: Coin,
    pub token1: Coin,
    pub price: String,
    pub swap: Swap,
}

/// The sixth read: a swap of the reference pool at the block of the swap.
#[derive(Debug)]
pub struct CashLookup {
    pub token0: Coin,
    pub token1: Coin,
    pub price: String,
    pub swap: Swap,
    pub block: Block,
}

/// Opens a price-since query on a pool. Exactly one bound is given:
/// `price0` asks for the latest swap at which a unit of token 0 went for
/// less than `price0` of token 1, `price1` for the same with the tokens
/// exchanged. No bound, or two, is `BadParams`, before anything is read.
pub fn pool_price_since(
    pool_contract_address: &str,
    price0: Option<String>,
    price1: Option<String>,
) -> (opened: Result<PoolLookup, QueryError>)
    ensures
        match (price0, price1) {
            (None, None) => opened matches Err(QueryError::BadParams(m)) && m@
                == "bad params both empty"@,
            (Some(_), Some(_)) => opened matches Err(QueryError::BadParams(m)) && m@
                == "bad params both full"@,
            (Some(bound), None) => opened matches Ok(lookup) && lookup.pool_contract_address@
                == pool_contract_address@ && lookup.direction && lookup.bound == bound,
            (None, Some(bound)) => opened matches Ok(lookup) && lookup.pool_contract_address@
                == pool_contract_address@ && !lookup.direction && lookup.bound == bound,
        },
{
    match (price0, price1) {
        (None, None) => Err(QueryError::BadParams(String::from_str("bad params both empty"))),
        (Some(_), Some(_)) => Err(
            QueryError::BadParams(String::from_str("bad params both full")),
        ),
        (Some(bound), None) => Ok(
            PoolLookup {
                pool_contract_address: String::from_str(pool_contract_address),
                direction: true,
                bound,
            },
        ),
        (None, Some(bound)) => Ok(
            PoolLookup {
                pool_contract_address: String::from_str(pool_contract_address),
                direction: false,
                bound,
            },
        ),
    }
}

impl PoolLookup {
    /// With the pool that the store holds under the address, goes on to its
    /// token 0; without one the query ends.
    pub fn resolve(self, found: Option<Pool>) -> (next: Result<Token0Lookup, QueryError>)
        ensures
            match found {
                Some(pool) => next == Ok::<Token0Lookup, QueryError>(
                    Token0Lookup {
                        pool_contract_address: self.pool_contract_address,
                        direction: self.direction,
                        bound: self.bound,
                        pool,
                    },
                ),
                None => next matches Err(QueryError::NotFound(m)) && m@ == zero_rows_text(
                    POOL_SQL@,
                    seq![self.pool_contract_address@],
                ),
            },
    {
        match found {
            Some(pool) => Ok(
                Token0Lookup {
                    pool_contract_address: self.pool_contract_address,
                    direction: self.direction,
                    bound: self.bound,
                    pool,
                },
            ),
            None => Err(zero_rows(POOL_SQL, self.pool_contract_address.as_str())),
        }
    }
}

impl Token0Lookup {
    /// With the coin that the store holds under the address of token 0,
    /// goes on to token 1; without one the query ends.
    pub fn resolve(self, found: Option<Coin>) -> (next: Result<Token1Lookup, QueryError>)
        ensures
            match found {
                Some(token0) => next == Ok::<Token1Lookup, QueryError>(
                    Token1Lookup {
                        pool_contract_address: self.pool_contract_address,
                        direction: self.direction,
                        bound: self.bound,
                        pool: self.pool,
                        token0,
                    },
                ),
                None => next matches Err(QueryError::NotFound(m)) && m@ == zero_rows_text(
                    COIN_SQL@,
                    seq![self.pool.token0@],
                ),
            },
    {
        match found {
            Some(token0) => Ok(
                Token1Lookup {
                    pool_contract_address: self.pool_contract_address,
                    direction: self.direction,
                    bound: self.bound,
                    pool: self.pool,
                    token0,
                },
            ),
            None => Err(zero_rows(COIN_SQL, self.pool.token0.as_str())),
        }
    }
}

impl Token1Lookup {
    /// With the coin that the store holds under the address of token 1,
    /// goes on to the swap: the read is that of `swap_price_since`, in the
    /// query's direction, under its bound, scaled by the decimal difference
    /// of the two tokens. Without the coin the query ends.
    pub fn resolve(self, found: Option<Coin>) -> (next: Result<SwapLookup, QueryError>)
        ensures
            match found {
                Some(token1) => next matches Ok(lookup) && {
                    &&& lookup.token0 == self.token0
                    &&& lookup.token1 == token1
                    &&& lookup.query.sql@ == swap_price_sql(self.direction)
                    &&& lookup.query.pool_contract_address@ == self.pool_contract_address@
                    &&& lookup.query.decimals == decimal_difference(
                        self.direction,
                        self.token0,
                        token1,
                    )
                    &&& lookup.query.price == self.bound
                    &&& lookup.query.direction == self.direction
                },
                None => next matches Err(QueryError::NotFound(m)) && m@ == zero_rows_text(
                    COIN_SQL@,
                    seq![self.pool.token1@],
                ),
            },
    {
        match found {
            Some(token1) => {
                let first: i64 = self.token0.decimals as i64;
                let second: i64 = token1.decimals as i64;
                let decimals: i64 = if self.direction {
                    first - second
                } else {
                    second - first
                };
                let query = swap_price_since(
                    self.pool_contract_address.as_str(),
                    self.direction,
                    self.bound,
                    decimals,
                );
                Ok(SwapLookup { token0: self.token0, token1, query })
            },
            None => Err(zero_rows(COIN_SQL, self.pool.token1.as_str())),
        }
    }
}

impl SwapLookup {
    /// With the swap and the rate that the store has found, goes on to the
    /// swap's block; without them the query ends as `SwapQuery::outcome`
    /// says.
    pub fn resolve(self, found: Result<Option<(String, Swap)>, String>) -> (next: Result<
        BlockLookup,
        QueryError,
    >)
        ensures
            match found {
                Ok(Some(row)) => next == Ok::<BlockLookup, QueryError>(
                    BlockLookup {
                        token0: self.token0,
                        token1: self.token1,
                        price: row.0,
                        swap: row.1,
                    },
                ),
                Ok(None) => next matches Err(QueryError::NotFound(m)) && m@
                    == self.query.zero_rows_message(),
                Err(cause) => next == Err::<BlockLookup, QueryError>(QueryError::Upstream(cause)),
            },
    {
        match self.query.outcome(found) {
            Ok((price, swap)) => Ok(
                BlockLookup { token0: self.token0, token1: self.token1, price, swap },
            ),
            Err(error) => Err(error),
        }
    }
}

impl BlockLookup {
    /// The number of the block to read.
    pub fn block_number(&self) -> (number: u32)
        ensures
            number == self.swap.block_number,
    {
        self.swap.block_number
    }

    /// With the block that the store holds under the swap's block number,
    /// goes on to the price in the reference currency; without one the query
    /// ends.
    pub fn resolve(self, found: Option<Block>) -> (next: Result<CashLookup, QueryError>)
        ensures
            match found {
                Some(block) => next == Ok::<CashLookup, QueryError>(
                    CashLookup {
                        token0: self.token0,
                        token1: self.token1,
                        price: self.price,
                        swap: self.swap,
                        block,
                    },
                ),
                None => next matches Err(QueryError::NotFound(m)) && m@ == zero_rows_text(
                    BLOCK_SQL@,
                    seq![signed_decimal(self.swap.block_number as int)],
                ),
            },
    {
        match found {
            Some(block) => Ok(
                CashLookup {
                    token0: self.token0,
                    token1: self.token1,
                    price: self.price,
                    swap: self.swap,
                    block,
                },
            ),
            None => {
                let mut number = String::new();
                push_signed_decimal(&mut number, self.swap.block_number as i64);
                assert(number@ =~= signed_decimal(self.swap.block_number as int));
                Err(zero_rows(BLOCK_SQL, number.as_str()))
            },
        }
    }
}

impl CashLookup {
    /// The number of the block at which the reference pool is read.
    pub fn block_number(&self) -> (number: u32)
        ensures
            number == self.swap.block_number,
    {
        self.swap.block_number
    }

    /// With the swap of the reference pool at the block, the response: the
    /// block's time, the swap's rate, the price in the reference currency
    /// that the reference pool's swap shows in the set direction, the two
    /// tokens and the swap. A failed read of the reference pool ends the
    /// query with the store's words, a swap that shows no price ends it as
    /// `pool_price_at` says, and so does, after these, a block time that
    /// cannot be written.
    pub fn resolve(self, found: Result<Swap, String>) -> (response: Result<
        PoolSinceResponse,
        QueryError,
    >)
        ensures
            match found {
                Err(cause) => response == Err::<PoolSinceResponse, QueryError>(
                    QueryError::Upstream(cause),
                ),
                Ok(reference) => if !reference.priced(true) {
                    response matches Err(QueryError::NotFound(m)) && m@
                        == "swap without a price"@
                } else {
                    match utc_text(self.block.timestamp, BLOCK_TIME_FORMAT@) {
                        Some(time) => response matches Ok(r) && {
                            &&& r.block_time@ == time
                            &&& r.price == self.price
                            &&& r.cash@ == reference.price_text(true)
                            &&& r.token0 == self.token0
                            &&& r.token1 == self.token1
                            &&& r.swap == self.swap
                        },
                        None => response matches Err(QueryError::Upstream(m)) && m@
                            == "block time"@,
                    }
                },
            },
    {
        let cash = match pool_price_at(true, found) {
            Ok(price) => price,
            Err(error) => {
                return Err(error);
            },
        };
        match block_time(self.block.timestamp) {
            Ok(block_time) => Ok(
                PoolSinceResponse {
                    block_time,
                    price: self.price,
                    cash,
                    token0: self.token0,
                    token1: self.token1,
                    swap: self.swap,
                },
            ),
            Err(error) => Err(error),
        }
    }
}

} // verus!
