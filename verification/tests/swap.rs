use bigdecimal::BigDecimal;
use dex_analytics::models::amount::Amount;
use dex_analytics::models::swap::Swap;
use num_traits::cast::ToPrimitive;
use std::str::FromStr;

fn whole(n: i64) -> Option<Amount> {
    Some(Amount::parse(&BigDecimal::from(n).to_string()).unwrap())
}

fn number(text: &str) -> f64 {
    BigDecimal::from_str(text).unwrap().to_f64().unwrap()
}

#[test]
fn price_from_buy() {
    let swap_buy = Swap {
        pool_contract_address: "test-contract-usdc-weth".to_owned(),
        block_number: 1,
        transaction_index: 0,
        in0: whole(4000),
        in0_eth: whole(1),
        in1: None,
        in1_eth: None,
        out0: None,
        out1: whole(1),
    };
    assert_eq!(number(&swap_buy.price(true)), 4000.0);
    assert_eq!(number(&swap_buy.price(false)), 0.00025);
}

#[test]
fn price_from_sell() {
    let swap_sell = Swap {
        pool_contract_address: "test-contract-usdc-weth".to_owned(),
        block_number: 1,
        transaction_index: 0,
        in0: None,
        in0_eth: None,
        in1: whole(1),
        in1_eth: whole(1),
        out0: whole(4000),
        out1: None,
    };
    assert_eq!(number(&swap_sell.price(true)), 4000.0);
    assert_eq!(number(&swap_sell.price(false)), 0.00025);
}

#[test]
fn price_text_is_the_decimal_quotient() {
    let swap = Swap {
        pool_contract_address: "p".to_owned(),
        block_number: 7,
        transaction_index: 3,
        in0: whole(4000),
        in0_eth: None,
        in1: None,
        in1_eth: None,
        out0: None,
        out1: whole(1),
    };
    assert_eq!(swap.price(true), "4000");
    assert_eq!(swap.price(false), "0.00025");
}

#[test]
fn prices_of_the_two_directions_are_reciprocal() {
    let swap = Swap {
        pool_contract_address: "p".to_owned(),
        block_number: 7,
        transaction_index: 3,
        in0: None,
        in0_eth: None,
        in1: Some(Amount::parse("2.5").unwrap()),
        in1_eth: None,
        out0: Some(Amount::parse("10").unwrap()),
        out1: None,
    };
    let forth = number(&swap.price(true));
    let back = number(&swap.price(false));
    assert_eq!(forth, 4.0);
    assert_eq!(back, 0.25);
    assert_eq!(forth * back, 1.0);
}

#[test]
fn checked_price_of_a_swap_without_a_price() {
    let zero_out = Swap {
        pool_contract_address: "p".to_owned(),
        block_number: 1,
        transaction_index: 0,
        in0: whole(5),
        in0_eth: None,
        in1: None,
        in1_eth: None,
        out0: None,
        out1: Some(Amount::parse("0.000").unwrap()),
    };
    assert_eq!(zero_out.checked_price(true), None);
    assert_eq!(zero_out.checked_price(false), Some("0.000".to_owned()));
    let empty = Swap {
        pool_contract_address: "p".to_owned(),
        block_number: 1,
        transaction_index: 0,
        in0: None,
        in0_eth: None,
        in1: None,
        in1_eth: None,
        out0: None,
        out1: None,
    };
    assert_eq!(empty.checked_price(true), None);
    assert_eq!(empty.checked_price(false), None);
    let half = Swap {
        pool_contract_address: "p".to_owned(),
        block_number: 1,
        transaction_index: 0,
        in0: whole(5),
        in0_eth: None,
        in1: None,
        in1_eth: None,
        out0: None,
        out1: None,
    };
    assert_eq!(half.checked_price(true), None);
}

#[test]
fn swap_from_row_reads_the_columns_unsigned() {
    let swap = Swap::from_row("p".to_owned(), 19_000_000, -1, None, None, whole(1), None, None, whole(2));
    assert_eq!(swap.pool_contract_address, "p");
    assert_eq!(swap.block_number, 19_000_000);
    assert_eq!(swap.transaction_index, u32::MAX);
    assert_eq!(swap.in0.unwrap().to_text(), "1");
    assert_eq!(swap.out1.unwrap().to_text(), "2");
    assert!(swap.in1.is_none() && swap.out0.is_none());
}
