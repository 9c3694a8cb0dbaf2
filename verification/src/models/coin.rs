//! Tokens and the reference token.

use vstd::prelude::*;

verus! {

/// The contract address of the reference ("cash") token, the wrapped native
/// asset, in which prices across pools are expressed.
pub const CASH_TOKEN: &'static str = "c02aaa39b223fe8d0a0e5c4f27ead9083c756cc2";

/// The query for a coin by its contract address.
pub const COIN_SQL: &'static str = "SELECT * FROM coins WHERE contract_address = $1";

/// A token of the ledger. Its decimals say by which power of ten an on-chain
/// integer amount of it is scaled.
#[derive(Debug)]
pub struct Coin {
    pub contract_address: String,
    pub name: String,
    pub symbol: String,
    pub decimals: i32,
}

impl Coin {
    /// The coin that a row of the `coins` table stands for.
    pub fn from_row(contract_address: String, name: String, symbol: String, decimals: i32) -> (coin:
        Coin)
        ensures
            coin.contract_address == contract_address,
            coin.name == name,
            coin.symbol == symbol,
            coin.decimals == decimals,
    {
        Coin { contract_address, name, symbol, decimals }
    }
}

/// Whether `token_address` names the reference token.
pub open spec fn cash_token(token_address: Seq<char>) -> bool {
    token_address == CASH_TOKEN@
}

/// Whether `token_address` is the contract address of the reference token.
pub fn is_cash_token(token_address: &str) -> (cash: bool)
    ensures
        cash == cash_token(token_address@),
{
    token_address.to_owned() == CASH_TOKEN.to_owned()
}

} // verus!
