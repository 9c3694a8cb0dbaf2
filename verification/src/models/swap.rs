//! Swaps: single trades against a pool, and the price that one shows.

use crate::models::amount::order::pow10;
use crate::models::amount::{quotient_text, Amount};
use vstd::prelude::*;

verus! {

/// One trade against a pool. A buy puts token 0 in and takes token 1 out
/// (`in0` and `out1` are set); a sell puts token 1 in and takes token 0 out
/// (`in1` and `out0` are set). `in0_eth` and `in1_eth` hold the inflow in the
/// common reference unit.
#[derive(Debug)]
pub struct Swap {
    pub pool_contract_address: String,
    pub block_number: u32,
    pub transaction_index: u32,
    pub in0_eth: Option<Amount>,
    pub in1_eth: Option<Amount>,
    pub in0: Option<Amount>,
    pub in1: Option<Amount>,
    pub out0: Option<Amount>,
    pub out1: Option<Amount>,
}

/// An exact price: `numerator / denominator`, with `denominator` positive.
pub struct Ratio {
    pub numerator: nat,
    pub denominator: nat,
}

impl Ratio {
    /// Whether the product of two ratios is one.
    pub open spec fn reciprocal_of(self, other: Ratio) -> bool {
        self.numerator * other.numerator == self.denominator * other.denominator
    }
}

/// The exact quotient of two amounts.
pub open spec fn exact_quotient(numerator: Amount, denominator: Amount) -> Ratio {
    Ratio {
        numerator: numerator.mantissa() * pow10(denominator.scale()),
        denominator: denominator.mantissa() * pow10(numerator.scale()),
    }
}

impl Swap {
    /// Whether the swap is a buy: token 0 in, token 1 out, nothing else.
    pub open spec fn is_buy(&self) -> bool {
        self.in0.is_some() && self.out1.is_some() && self.in1.is_none() && self.out0.is_none()
    }

    /// Whether the swap is a sell: token 1 in, token 0 out, nothing else.
    pub open spec fn is_sell(&self) -> bool {
        self.in1.is_some() && self.out0.is_some() && self.in0.is_none() && self.out1.is_none()
    }

    /// The amount above the line of the price in `direction`: of token 0
    /// where `direction` is set, of token 1 where it is not.
    pub open spec fn numerator(&self, direction: bool) -> Option<Amount> {
        if direction {
            if self.in0.is_some() {
                self.in0
            } else {
                self.out0
            }
        } else {
            if self.in0.is_some() {
                self.out1
            } else {
                self.in1
            }
        }
    }

    /// The amount below the line of the price in `direction`: of the other
    /// token than the numerator's.
    pub open spec fn denominator(&self, direction: bool) -> Option<Amount> {
        self.numerator(!direction)
    }

    /// Whether the swap shows a price in `direction`: both amounts are there
    /// and the one below the line is not zero.
    pub open spec fn priced(&self, direction: bool) -> bool {
        &&& self.numerator(direction).is_some()
        &&& self.denominator(direction).is_some()
        &&& self.denominator(direction).unwrap().mantissa() != 0
    }

    /// The exact price in `direction`.
    pub open spec fn exact_price(&self, direction: bool) -> Ratio {
        exact_quotient(self.numerator(direction).unwrap(), self.denominator(direction).unwrap())
    }

    /// The text of the price in `direction`, as the decimal division gives
    /// it.
    pub open spec fn price_text(&self, direction: bool) -> Seq<char> {
        quotient_text(
            self.numerator(direction).unwrap().text(),
            self.denominator(direction).unwrap().text(),
        )
    }

    /// The swap that a row of the `swaps` table stands for.
    pub fn from_row(
        pool_contract_address: String,
        block_number: i32,
        transaction_index: i32,
        in0_eth: Option<Amount>,
        in1_eth: Option<Amount>,
        in0: Option<Amount>,
        in1: Option<Amount>,
        out0: Option<Amount>,
        out1: Option<Amount>,
    ) -> (swap: Swap)
        ensures
            swap == (Swap {
                pool_contract_address,
                block_number: block_number as u32,
                transaction_index: transaction_index as u32,
                in0_eth,
                in1_eth,
                in0,
                in1,
                out0,
                out1,
            }),
    {
        Swap {
            pool_contract_address,
            block_number: block_number as u32,
            transaction_index: transaction_index as u32,
            in0_eth,
            in1_eth,
            in0,
            in1,
            out0,
            out1,
        }
    }

    /// The price of token 1 in units of token 0 where `direction` is set,
    /// and of token 0 in units of token 1 where it is not: the quotient of
    /// the swap's two amounts, as decimal text.
    pub fn price(&self, direction: bool) -> (price: String)
        requires
            self.priced(direction),
        ensures
            price@ == self.price_text(direction),
    {
        let (numerator, denominator) = if direction {
            if self.in0.is_some() {
                (self.in0.as_ref().unwrap(), self.out1.as_ref().unwrap())
            } else {
                (self.out0.as_ref().unwrap(), self.in1.as_ref().unwrap())
            }
        } else {
            if self.in0.is_some() {
                (self.out1.as_ref().unwrap(), self.in0.as_ref().unwrap())
            } else {
                (self.in1.as_ref().unwrap(), self.out0.as_ref().unwrap())
            }
        };
        numerator.quotient(denominator)
    }

    /// `price` for every swap: `None` where the swap shows no price in
    /// `direction`.
    pub fn checked_price(&self, direction: bool) -> (price: Option<String>)
        ensures
            price.is_some() <==> self.priced(direction),
            price.is_some() ==> price.unwrap()@ == self.price_text(direction),
    {
        let (numerator, denominator) = if direction {
            if self.in0.is_some() {
                (&self.in0, &self.out1)
            } else {
                (&self.out0, &self.in1)
            }
        } else {
            if self.in0.is_some() {
                (&self.out1, &self.in0)
            } else {
                (&self.in1, &self.out0)
            }
        };
        match (numerator, denominator) {
            (Some(_), Some(below)) => {
                if below.is_zero() {
                    None
                } else {
                    Some(self.price(direction))
                }
            },
            _ => None,
        }
    }

    /// Of a buy, the price in the set direction is `in0 / out1` and the
    /// price in the other direction is `out1 / in0`, as text and exactly,
    /// and the product of the two exact prices is one.
    pub proof fn lemma_buy_prices(&self)
        requires
            self.is_buy(),
        ensures
            self.numerator(true) == self.in0,
            self.denominator(true) == self.out1,
            self.numerator(false) == self.out1,
            self.denominator(false) == self.in0,
            self.price_text(true) == quotient_text(
                self.in0.unwrap().text(),
                self.out1.unwrap().text(),
            ),
            self.price_text(false) == quotient_text(
                self.out1.unwrap().text(),
                self.in0.unwrap().text(),
            ),
            self.exact_price(true) == exact_quotient(self.in0.unwrap(), self.out1.unwrap()),
            self.exact_price(false) == exact_quotient(self.out1.unwrap(), self.in0.unwrap()),
            self.exact_price(true).reciprocal_of(self.exact_price(false)),
    {
        self.lemma_prices_reciprocal();
    }

    /// Of a sell, the price in the set direction is `out0 / in1` and the
    /// price in the other direction is `in1 / out0`, as text and exactly,
    /// and the product of the two exact prices is one.
    pub proof fn lemma_sell_prices(&self)
        requires
            self.is_sell(),
        ensures
            self.numerator(true) == self.out0,
            self.denominator(true) == self.in1,
            self.numerator(false) == self.in1,
            self.denominator(false) == self.out0,
            self.price_text(true) == quotient_text(
                self.out0.unwrap().text(),
                self.in1.unwrap().text(),
            ),
            self.price_text(false) == quotient_text(
                self.in1.unwrap().text(),
                self.out0.unwrap().text(),
            ),
            self.exact_price(true) == exact_quotient(self.out0.unwrap(), self.in1.unwrap()),
            self.exact_price(false) == exact_quotient(self.in1.unwrap(), self.out0.unwrap()),
            self.exact_price(true).reciprocal_of(self.exact_price(false)),
    {
        self.lemma_prices_reciprocal();
    }

    /// The prices of one swap in the two directions are reciprocals.
    pub proof fn lemma_prices_reciprocal(&self)
        ensures
            self.exact_price(true).reciprocal_of(self.exact_price(false)),
    {
        let above = self.numerator(true).unwrap();
        let below = self.numerator(false).unwrap();
        let a = above.mantissa() * pow10(below.scale());
        let b = below.mantissa() * pow10(above.scale());
        assert(self.exact_price(true).numerator == a);
        assert(self.exact_price(true).denominator == b);
        assert(self.exact_price(false).numerator == b);
        assert(self.exact_price(false).denominator == a);
        assert(a * b == b * a) by (nonlinear_arith);
    }
}

} // verus!
