use dex_analytics::error::QueryError;
use dex_analytics::models::amount::Amount;
use dex_analytics::models::block::Block;
use dex_analytics::models::coin::Coin;
use dex_analytics::models::pool::Pool;
use dex_analytics::models::swap::Swap;
use dex_analytics::qury::{
    block_time, pool_price_at, pool_price_since, swap_price_since, PoolSinceResponse, SwapLookup,
    USDC_POOL,
};

const POOL: &str = "0d4a11d5eeaac28ec3f61d100daf4d40471f1852";
const USDC: &str = "a0b86991c6218b36c1d19d4a2e9eb0ce3606eb48";
const WETH: &str = "c02aaa39b223fe8d0a0e5c4f27ead9083c756cc2";

fn usdc() -> Coin {
    Coin::from_row(USDC.to_owned(), "USD Coin".to_owned(), "USDC".to_owned(), 6)
}

fn weth() -> Coin {
    Coin::from_row(WETH.to_owned(), "Wrapped Ether".to_owned(), "WETH".to_owned(), 18)
}

fn the_pool() -> Pool {
    Pool::from_row(POOL.to_owned(), USDC.to_owned(), WETH.to_owned())
}

fn units(text: &str) -> Option<Amount> {
    Some(Amount::parse(text).unwrap())
}

fn buy(block_number: u32) -> Swap {
    Swap {
        pool_contract_address: POOL.to_owned(),
        block_number,
        transaction_index: 4,
        in0: units("4000"),
        in0_eth: units("1"),
        in1: None,
        in1_eth: None,
        out0: None,
        out1: units("1"),
    }
}

fn up_to_the_swap(price0: Option<&str>, price1: Option<&str>) -> SwapLookup {
    pool_price_since(POOL, price0.map(str::to_owned), price1.map(str::to_owned))
        .unwrap()
        .resolve(Some(the_pool()))
        .unwrap()
        .resolve(Some(usdc()))
        .unwrap()
        .resolve(Some(weth()))
        .unwrap()
}

fn not_found(error: QueryError) -> String {
    match error {
        QueryError::NotFound(message) => message,
        other => panic!("{:?}", other),
    }
}

#[test]
fn datetime() {
    assert_eq!(1, 1)
}

#[test]
fn block_time_is_utc_to_the_second() {
    assert_eq!(block_time(0).unwrap(), "1970-01-01 00:00:00");
    assert_eq!(block_time(1_700_000_000).unwrap(), "2023-11-14 22:13:20");
    assert_eq!(block_time(951_782_399).unwrap(), "2000-02-28 23:59:59");
    assert_eq!(block_time(u32::MAX).unwrap(), "2106-02-07 06:28:15");
}

#[test]
fn no_bound_is_bad_params() {
    match pool_price_since(POOL, None, None) {
        Err(QueryError::BadParams(message)) => assert_eq!(message, "bad params both empty"),
        other => panic!("{:?}", other),
    }
}

#[test]
fn two_bounds_are_bad_params() {
    match pool_price_since(POOL, Some("1".to_owned()), Some("2".to_owned())) {
        Err(QueryError::BadParams(message)) => assert_eq!(message, "bad params both full"),
        other => panic!("{:?}", other),
    }
}

#[test]
fn one_bound_opens_the_query() {
    let first = pool_price_since(POOL, Some("4000.5".to_owned()), None).unwrap();
    assert_eq!(first.pool_contract_address, POOL);
    assert!(first.direction);
    assert_eq!(first.bound, "4000.5");
    let second = pool_price_since(POOL, None, Some("0.0003".to_owned())).unwrap();
    assert_eq!(second.pool_contract_address, POOL);
    assert!(!second.direction);
    assert_eq!(second.bound, "0.0003");
}

#[test]
fn swap_query_of_the_set_direction() {
    let query = swap_price_since(POOL, true, "4000".to_owned(), -12);
    assert_eq!(
        query.sql,
        "select *, in0_eth / (out1 * power(10,$2)) as price_eth from swaps where pool_contract_address = $1 and out1 > 0 and in0_eth / (out1 * power(10,$2)) < $3 order by block_number desc limit 1"
    );
    assert_eq!(query.pool_contract_address, POOL);
    assert_eq!(query.decimals, -12);
    assert_eq!(query.price, "4000");
    assert!(query.direction);
}

#[test]
fn swap_query_of_the_other_direction() {
    let query = swap_price_since(POOL, false, "0.5".to_owned(), 12);
    assert_eq!(
        query.sql,
        "select *, in1_eth / (out0 * power(10,$2)) as price_eth from swaps where pool_contract_address = $1 and out0 > 0 and in1_eth / (out0 * power(10,$2)) < $3 order by block_number desc limit 1"
    );
    assert_eq!(query.decimals, 12);
    assert!(!query.direction);
}

#[test]
fn decimal_difference_follows_the_direction() {
    let forth = up_to_the_swap(Some("4000"), None);
    assert_eq!(forth.query.decimals, -12);
    assert!(forth.query.direction);
    assert_eq!(forth.query.price, "4000");
    assert_eq!(forth.query.pool_contract_address, POOL);
    let back = up_to_the_swap(None, Some("0.0003"));
    assert_eq!(back.query.decimals, 12);
    assert!(!back.query.direction);
    assert_eq!(back.query.price, "0.0003");
}

#[test]
fn decimal_difference_of_extreme_decimals() {
    let low = Coin::from_row("a".to_owned(), "A".to_owned(), "A".to_owned(), i32::MIN);
    let high = Coin::from_row("b".to_owned(), "B".to_owned(), "B".to_owned(), i32::MAX);
    let lookup = pool_price_since(POOL, Some("1".to_owned()), None)
        .unwrap()
        .resolve(Some(the_pool()))
        .unwrap()
        .resolve(Some(low))
        .unwrap()
        .resolve(Some(high))
        .unwrap();
    assert_eq!(lookup.query.decimals, i32::MIN as i64 - i32::MAX as i64);
}

#[test]
fn missing_pool_ends_the_query() {
    let error = pool_price_since(POOL, Some("1".to_owned()), None).unwrap().resolve(None).unwrap_err();
    assert_eq!(
        not_found(error),
        format!("0 rows: SELECT * FROM pools WHERE contract_address = $1 {}", POOL)
    );
}

#[test]
fn missing_coin_ends_the_query() {
    let at_token0 = pool_price_since(POOL, Some("1".to_owned()), None)
        .unwrap()
        .resolve(Some(the_pool()))
        .unwrap();
    assert_eq!(at_token0.pool.token0, USDC);
    let error = at_token0.resolve(None).unwrap_err();
    assert_eq!(
        not_found(error),
        format!("0 rows: SELECT * FROM coins WHERE contract_address = $1 {}", USDC)
    );
    let error = pool_price_since(POOL, Some("1".to_owned()), None)
        .unwrap()
        .resolve(Some(the_pool()))
        .unwrap()
        .resolve(Some(usdc()))
        .unwrap()
        .resolve(None)
        .unwrap_err();
    assert_eq!(
        not_found(error),
        format!("0 rows: SELECT * FROM coins WHERE contract_address = $1 {}", WETH)
    );
}

#[test]
fn no_swap_under_the_bound_is_not_found() {
    let lookup = up_to_the_swap(Some("4000"), None);
    let sql = lookup.query.sql.clone();
    let error = lookup.resolve(Ok(None)).unwrap_err();
    assert_eq!(not_found(error), format!("0 rows: {} {} {} {}", sql, POOL, -12, "4000"));
}

#[test]
fn failure_of_the_store_is_upstream() {
    let error = up_to_the_swap(Some("4000"), None).resolve(Err("connection refused".to_owned())).unwrap_err();
    match error {
        QueryError::Upstream(message) => assert_eq!(message, "connection refused"),
        other => panic!("{:?}", other),
    }
}

#[test]
fn missing_block_ends_the_query() {
    let at_block = up_to_the_swap(Some("4000"), None)
        .resolve(Ok(Some(("3999.5".to_owned(), buy(19_000_000)))))
        .unwrap();
    assert_eq!(at_block.block_number(), 19_000_000);
    let error = at_block.resolve(None).unwrap_err();
    assert_eq!(not_found(error), "0 rows: SELECT * FROM blocks WHERE number = $1 19000000");
}

fn answer(cash: Result<Swap, String>) -> Result<PoolSinceResponse, QueryError> {
    let at_cash = up_to_the_swap(Some("4000"), None)
        .resolve(Ok(Some(("3999.5".to_owned(), buy(19_000_000)))))
        .unwrap()
        .resolve(Some(Block::from_row("0xabc".to_owned(), 19_000_000, 1_700_000_000)))
        .unwrap();
    assert_eq!(at_cash.block_number(), 19_000_000);
    at_cash.resolve(cash)
}

#[test]
fn response_joins_what_was_read() {
    let mut reference = buy(19_000_000);
    reference.pool_contract_address = USDC_POOL.to_owned();
    reference.in0 = units("3500");
    let response = answer(Ok(reference)).unwrap();
    assert_eq!(response.block_time, "2023-11-14 22:13:20");
    assert_eq!(response.price, "3999.5");
    assert_eq!(response.cash, "3500");
    assert_eq!(response.token0.symbol, "USDC");
    assert_eq!(response.token1.symbol, "WETH");
    assert_eq!(response.swap.block_number, 19_000_000);
    assert_eq!(response.swap.transaction_index, 4);
    assert_eq!(response.swap.pool_contract_address, POOL);
}

#[test]
fn response_without_a_cash_price() {
    match answer(Err("no rows".to_owned())) {
        Err(QueryError::Upstream(message)) => assert_eq!(message, "no rows"),
        other => panic!("{:?}", other),
    }
    let mut unpriced = buy(19_000_000);
    unpriced.out1 = units("0");
    match answer(Ok(unpriced)) {
        Err(QueryError::NotFound(message)) => assert_eq!(message, "swap without a price"),
        other => panic!("{:?}", other),
    }
    let mut one_sided = buy(19_000_000);
    one_sided.out1 = None;
    match answer(Ok(one_sided)) {
        Err(QueryError::NotFound(message)) => assert_eq!(message, "swap without a price"),
        other => panic!("{:?}", other),
    }
}

#[test]
fn pool_price_at_is_the_price_of_the_swap_found() {
    assert_eq!(pool_price_at(true, Ok(buy(1))).unwrap(), "4000");
    assert_eq!(pool_price_at(false, Ok(buy(1))).unwrap(), "0.00025");
    match pool_price_at(true, Err("gone".to_owned())) {
        Err(QueryError::Upstream(message)) => assert_eq!(message, "gone"),
        other => panic!("{:?}", other),
    }
    let mut unpriced = buy(1);
    unpriced.out1 = None;
    match pool_price_at(true, Ok(unpriced)) {
        Err(QueryError::NotFound(message)) => assert_eq!(message, "swap without a price"),
        other => panic!("{:?}", other),
    }
}

#[test]
fn error_as_text() {
    assert_eq!(QueryError::BadParams("a".to_owned()).to_text(), "a");
    assert_eq!(QueryError::NotFound("b".to_owned()).to_text(), "b");
    assert_eq!(QueryError::Upstream("c".to_owned()).to_text(), "c");
}
