use dex_analytics::error::QueryError;
use dex_analytics::models::amount::Amount;
use dex_analytics::models::block::Number;
use dex_analytics::models::coin::{is_cash_token, Coin, CASH_TOKEN};
use dex_analytics::models::pool::Pool;
use dex_analytics::models::reserve::{
    summarize, summary_query, Reserve, Summary, SUMMARIZE_X_SQL, SUMMARIZE_Y_SQL,
};
use dex_analytics::models::top_pool;
use dex_analytics::sql::{
    top_pools, top_volumes, AfterReserve, Coin0Step, PoolVolume, Progress, TopPools,
    TOP_POOLS_LIMIT,
};

const OTHER: &str = "a0b86991c6218b36c1d19d4a2e9eb0ce3606eb48";
const THIRD: &str = "6b175474e89094c44da98b954eedeac495271d0f";

fn volume(address: &str, sum_eth: &str) -> PoolVolume {
    PoolVolume {
        pool_contract_address: address.to_owned(),
        sum0: Amount::parse("10").unwrap(),
        sum0_eth: Amount::parse("1").unwrap(),
        sum1: Amount::parse("20").unwrap(),
        sum1_eth: Amount::parse("2").unwrap(),
        sum_eth: Amount::parse(sum_eth).unwrap(),
        count0: 3,
        count1: 4,
    }
}

fn addresses(rows: &[PoolVolume]) -> Vec<String> {
    rows.iter().map(|row| row.pool_contract_address.clone()).collect()
}

fn coin(address: &str) -> Coin {
    Coin::from_row(address.to_owned(), "name".to_owned(), address[..4].to_owned(), 18)
}

fn reserve() -> Reserve {
    Reserve::from_row(19_000_000, "1000".to_owned(), "2000".to_owned())
}

fn summary(start: &Number, stop: &Number) -> Summary {
    summarize(start, stop, Amount::parse("1.5"), 12, Amount::parse("1"), Amount::parse("9"))
}

fn after_the_reserve(ranking: TopPools, token0: &str, token1: &str) -> AfterReserve {
    let step = match ranking.next() {
        Progress::Lookup(step) => step,
        Progress::Done(_) => panic!("no row waits"),
    };
    let address = step.address().to_owned();
    let step = step.resolve(Some(Pool::from_row(address.clone(), token0.to_owned(), token1.to_owned()))).unwrap();
    assert_eq!(step.address(), address);
    step.resolve(Some(reserve())).unwrap()
}

fn after_the_coins(step: Coin0Step, token0: &str, token1: &str) -> TopPools {
    assert_eq!(step.address(), token0);
    let step = step.resolve(Some(coin(token0))).unwrap();
    assert_eq!(step.address(), token1);
    step.resolve(Some(coin(token1))).unwrap()
}

fn done(ranking: TopPools) -> Vec<Pool> {
    match ranking.next() {
        Progress::Done(pools) => pools,
        Progress::Lookup(_) => panic!("a row waits"),
    }
}

#[test]
fn cash_token_is_the_wrapped_native_asset() {
    assert_eq!(CASH_TOKEN, "c02aaa39b223fe8d0a0e5c4f27ead9083c756cc2");
    assert!(is_cash_token("c02aaa39b223fe8d0a0e5c4f27ead9083c756cc2"));
    assert!(!is_cash_token("C02AAA39B223FE8D0A0E5C4F27EAD9083C756CC2"));
    assert!(!is_cash_token(OTHER));
    assert!(!is_cash_token(""));
    assert!(!is_cash_token("c02aaa39b223fe8d0a0e5c4f27ead9083c756cc"));
}

#[test]
fn pool_knows_its_cash_token() {
    let first = Pool::from_row("p".to_owned(), CASH_TOKEN.to_owned(), OTHER.to_owned());
    assert!(first.has_cash_token() && first.cash_token_is_0() && !first.cash_token_is_1());
    let second = Pool::from_row("p".to_owned(), OTHER.to_owned(), CASH_TOKEN.to_owned());
    assert!(second.has_cash_token() && !second.cash_token_is_0() && second.cash_token_is_1());
    let neither = Pool::from_row("p".to_owned(), OTHER.to_owned(), THIRD.to_owned());
    assert!(!neither.has_cash_token() && !neither.cash_token_is_0() && !neither.cash_token_is_1());
}

#[test]
fn pool_from_row_is_undecorated() {
    let pool = Pool::from_row("p".to_owned(), OTHER.to_owned(), THIRD.to_owned());
    assert_eq!(pool.contract_address, "p");
    assert_eq!(pool.token0, OTHER);
    assert_eq!(pool.token1, THIRD);
    assert!(pool.reserve.is_none() && pool.coin0.is_none() && pool.coin1.is_none());
    assert!(pool.count0.is_none() && pool.count1.is_none() && pool.reserve_summary.is_none());
    assert!(pool.sum0.is_none() && pool.sum0_eth.is_none() && pool.sum1.is_none());
    assert!(pool.sum1_eth.is_none() && pool.sum_eth.is_none());
}

#[test]
fn summary_is_over_the_side_that_is_not_cash() {
    assert_eq!(summary_query(true), SUMMARIZE_X_SQL);
    assert_eq!(summary_query(false), SUMMARIZE_Y_SQL);
    assert!(SUMMARIZE_X_SQL.contains("stddev_pop(x::numeric)"));
    assert!(SUMMARIZE_Y_SQL.contains("stddev_pop(y::numeric)"));
    assert!(SUMMARIZE_X_SQL.contains("block_number > $2 and block_number <= $3"));
}

#[test]
fn summarize_keeps_the_range_and_the_row() {
    let start = Number::new(100);
    let stop = Number::new(200);
    let made = summarize(&start, &stop, Amount::parse("1.5"), 12, None, Amount::parse("9"));
    assert_eq!(made.start_block_number, start);
    assert_eq!(made.stop_block_number, stop);
    assert_eq!(made.count, 12);
    assert_eq!(made.stddev.unwrap().to_text(), "1.5");
    assert!(made.min.is_none());
    assert_eq!(made.max.unwrap().to_text(), "9");
}

#[test]
fn reserve_from_row() {
    let made = Reserve::from_row(-1, "1".to_owned(), "2".to_owned());
    assert_eq!(made.block_number, u32::MAX);
    assert_eq!(made.x, "1");
    assert_eq!(made.y, "2");
}

#[test]
fn top_volumes_ranks_by_volume() {
    let rows = vec![volume("a", "5"), volume("b", "50.5"), volume("c", "0.75"), volume("d", "50.49")];
    assert_eq!(addresses(&top_volumes(rows)), ["b", "d", "a", "c"]);
}

#[test]
fn top_volumes_keeps_the_order_of_equal_volumes() {
    let rows = vec![volume("a", "5"), volume("b", "7"), volume("c", "5.0"), volume("d", "05")];
    assert_eq!(addresses(&top_volumes(rows)), ["b", "a", "c", "d"]);
}

#[test]
fn top_volumes_keeps_a_ranked_answer() {
    let rows = vec![volume("a", "9"), volume("b", "8"), volume("c", "8"), volume("d", "1")];
    assert_eq!(addresses(&top_volumes(rows)), ["a", "b", "c", "d"]);
    assert!(top_volumes(vec![]).is_empty());
}

#[test]
fn top_volumes_keeps_ten() {
    assert_eq!(TOP_POOLS_LIMIT, 10);
    let rows: Vec<PoolVolume> = (1..=12).map(|n| volume(&format!("pool-{}", n), &n.to_string())).collect();
    let first = top_volumes(rows);
    assert_eq!(addresses(&first), ["pool-12", "pool-11", "pool-10", "pool-9", "pool-8", "pool-7", "pool-6", "pool-5", "pool-4", "pool-3"]);
}

#[test]
fn ranking_of_no_rows_is_done() {
    let start = Number::new(100);
    let stop = Number::new(200);
    assert!(done(top_pools(&start, &stop, Ok(vec![]))).is_empty());
    assert!(done(top_pools(&start, &stop, Err("connection refused".to_owned()))).is_empty());
}

#[test]
fn pool_with_the_cash_token_carries_a_summary() {
    let start = Number::new(100);
    let stop = Number::new(200);
    for (token0, token1, sql) in [(OTHER, CASH_TOKEN, SUMMARIZE_X_SQL), (CASH_TOKEN, OTHER, SUMMARIZE_Y_SQL)] {
        let ranking = top_pools(&start, &stop, Ok(vec![volume("p", "3")]));
        let step = match after_the_reserve(ranking, token0, token1) {
            AfterReserve::Summary(step) => step,
            AfterReserve::Coin(_) => panic!("no summary is asked for"),
        };
        assert_eq!(step.address(), "p");
        assert_eq!(step.range(), (start, stop));
        assert_eq!(step.sql(), sql);
        let step = step.resolve(Ok(summary(&start, &stop))).unwrap();
        let pools = done(after_the_coins(step, token0, token1));
        assert_eq!(pools.len(), 1);
        let made = pools[0].reserve_summary.as_ref().unwrap();
        assert_eq!(made.count, 12);
        assert_eq!(made.start_block_number, start);
        assert_eq!(made.stop_block_number, stop);
    }
}

#[test]
fn summary_is_held_to_the_range_of_the_ranking() {
    let start = Number::new(100);
    let stop = Number::new(200);
    let ranking = top_pools(&start, &stop, Ok(vec![volume("p", "3")]));
    let step = match after_the_reserve(ranking, OTHER, CASH_TOKEN) {
        AfterReserve::Summary(step) => step,
        AfterReserve::Coin(_) => panic!("no summary is asked for"),
    };
    let elsewhere = summary(&Number::new(7), &Number::new(9));
    let step = step.resolve(Ok(elsewhere)).unwrap();
    let pools = done(after_the_coins(step, OTHER, CASH_TOKEN));
    let made = pools[0].reserve_summary.as_ref().unwrap();
    assert_eq!(made.start_block_number, start);
    assert_eq!(made.stop_block_number, stop);
    assert_eq!(made.count, 12);
    assert_eq!(made.stddev.as_ref().unwrap().to_text(), "1.5");
    assert_eq!(made.min.as_ref().unwrap().to_text(), "1");
    assert_eq!(made.max.as_ref().unwrap().to_text(), "9");
}

#[test]
fn pool_without_the_cash_token_carries_no_summary() {
    let ranking = top_pools(&Number::new(100), &Number::new(200), Ok(vec![volume("p", "3")]));
    let step = match after_the_reserve(ranking, OTHER, THIRD) {
        AfterReserve::Coin(step) => step,
        AfterReserve::Summary(_) => panic!("a summary is asked for"),
    };
    let pools = done(after_the_coins(step, OTHER, THIRD));
    assert_eq!(pools.len(), 1);
    assert!(pools[0].reserve_summary.is_none());
}

#[test]
fn ranked_pool_is_decorated() {
    let ranking = top_pools(&Number::new(100), &Number::new(200), Ok(vec![volume("p", "3")]));
    let step = match after_the_reserve(ranking, OTHER, THIRD) {
        AfterReserve::Coin(step) => step,
        AfterReserve::Summary(_) => panic!("a summary is asked for"),
    };
    let pools = done(after_the_coins(step, OTHER, THIRD));
    let pool = &pools[0];
    assert_eq!(pool.contract_address, "p");
    assert_eq!(pool.token0, OTHER);
    assert_eq!(pool.token1, THIRD);
    assert_eq!(pool.reserve.as_ref().unwrap().x, "1000");
    assert_eq!(pool.coin0.as_ref().unwrap().contract_address, OTHER);
    assert_eq!(pool.coin1.as_ref().unwrap().contract_address, THIRD);
    assert!(pool.reserve.is_some() && pool.coin0.is_some() && pool.coin1.is_some());
    assert!(pool.sum0.is_some() && pool.sum0_eth.is_some() && pool.sum1.is_some());
    assert!(pool.sum1_eth.is_some() && pool.sum_eth.is_some());
    assert_eq!(pool.count0, Some(3));
    assert_eq!(pool.count1, Some(4));
    assert_eq!(pool.sum0.as_ref().unwrap().to_text(), "10");
    assert_eq!(pool.sum0_eth.as_ref().unwrap().to_text(), "1");
    assert_eq!(pool.sum1.as_ref().unwrap().to_text(), "20");
    assert_eq!(pool.sum1_eth.as_ref().unwrap().to_text(), "2");
    assert_eq!(pool.sum_eth.as_ref().unwrap().to_text(), "3");
}

#[test]
fn ranking_holds_ten_pools_in_the_order_of_their_volume() {
    let rows: Vec<PoolVolume> = (1..=12).map(|n| volume(&format!("pool-{}", n), &n.to_string())).collect();
    let mut ranking = top_pools(&Number::new(100), &Number::new(200), Ok(rows));
    let mut reads = 0;
    let pools = loop {
        let step = match ranking.next() {
            Progress::Done(pools) => break pools,
            Progress::Lookup(step) => step,
        };
        reads += 1;
        let address = step.address().to_owned();
        let step = step
            .resolve(Some(Pool::from_row(address, OTHER.to_owned(), THIRD.to_owned())))
            .unwrap()
            .resolve(Some(reserve()))
            .unwrap();
        ranking = match step {
            AfterReserve::Coin(step) => after_the_coins(step, OTHER, THIRD),
            AfterReserve::Summary(_) => panic!("a summary is asked for"),
        };
    };
    assert_eq!(reads, 10);
    let order: Vec<&str> = pools.iter().map(|pool| pool.contract_address.as_str()).collect();
    assert_eq!(order, ["pool-12", "pool-11", "pool-10", "pool-9", "pool-8", "pool-7", "pool-6", "pool-5", "pool-4", "pool-3"]);
    for pair in pools.windows(2) {
        let before = pair[0].sum_eth.as_ref().unwrap();
        let behind = pair[1].sum_eth.as_ref().unwrap();
        assert!(!before.is_less_than(behind));
    }
}

#[test]
fn missing_row_ends_the_ranking() {
    let start = Number::new(100);
    let stop = Number::new(200);
    let rows = || Ok(vec![volume("p", "3")]);
    let step = match top_pools(&start, &stop, rows()).next() {
        Progress::Lookup(step) => step,
        Progress::Done(_) => panic!("no row waits"),
    };
    match step.resolve(None) {
        Err(QueryError::NotFound(message)) => {
            assert_eq!(message, "0 rows: SELECT * FROM pools WHERE contract_address = $1 p")
        }
        _ => panic!("the ranking goes on"),
    }
    let step = match top_pools(&start, &stop, rows()).next() {
        Progress::Lookup(step) => step,
        Progress::Done(_) => panic!("no row waits"),
    };
    let step = step.resolve(Some(Pool::from_row("p".to_owned(), OTHER.to_owned(), CASH_TOKEN.to_owned()))).unwrap();
    match step.resolve(None) {
        Err(QueryError::NotFound(message)) => assert_eq!(
            message,
            "0 rows: SELECT * FROM reserves WHERE contract_address = $1 order by block_number desc limit 1 p"
        ),
        _ => panic!("the ranking goes on"),
    }
    let step = match after_the_reserve(top_pools(&start, &stop, rows()), OTHER, CASH_TOKEN) {
        AfterReserve::Summary(step) => step,
        AfterReserve::Coin(_) => panic!("no summary is asked for"),
    };
    match step.resolve(Err("timeout".to_owned())) {
        Err(QueryError::Upstream(message)) => assert_eq!(message, "timeout"),
        _ => panic!("the ranking goes on"),
    }
    let step = match after_the_reserve(top_pools(&start, &stop, rows()), OTHER, THIRD) {
        AfterReserve::Coin(step) => step,
        AfterReserve::Summary(_) => panic!("a summary is asked for"),
    };
    match step.resolve(None) {
        Err(QueryError::NotFound(message)) => {
            assert_eq!(message, format!("0 rows: SELECT * FROM coins WHERE contract_address = $1 {}", OTHER))
        }
        _ => panic!("the ranking goes on"),
    }
    let step = match after_the_reserve(top_pools(&start, &stop, rows()), OTHER, THIRD) {
        AfterReserve::Coin(step) => step,
        AfterReserve::Summary(_) => panic!("a summary is asked for"),
    };
    match step.resolve(Some(coin(OTHER))).unwrap().resolve(None) {
        Err(QueryError::NotFound(message)) => {
            assert_eq!(message, format!("0 rows: SELECT * FROM coins WHERE contract_address = $1 {}", THIRD))
        }
        _ => panic!("the ranking goes on"),
    }
}

#[test]
fn top_pool_holds_its_parts() {
    let pool = Pool::from_row("p".to_owned(), OTHER.to_owned(), THIRD.to_owned());
    let top = top_pool::new(pool, reserve(), Amount::parse("1").unwrap(), Amount::parse("2").unwrap());
    assert_eq!(top.pool.contract_address, "p");
    assert_eq!(top.reserve.y, "2000");
    assert_eq!(top.sum0.to_text(), "1");
    assert_eq!(top.sum1.to_text(), "2");
}
