//! Blocks of the chain and arithmetic on block numbers.

use vstd::prelude::*;
use vstd::std_specs::convert::FromSpecImpl;

verus! {

/// Blocks produced per hour at the fixed cadence of twelve per minute.
pub const BLOCKS_PER_HOUR: u32 = 720;

/// The query for a block by its number.
pub const BLOCK_SQL: &'static str = "SELECT * FROM blocks WHERE number = $1";

/// The query for the first block at or after a time.
pub const BLOCK_BY_TIMESTAMP_SQL: &'static str =
    "SELECT * FROM blocks WHERE timestamp >= $1 order by timestamp asc limit 1";

/// The query for the latest block.
pub const LATEST_BLOCK_SQL: &'static str = "SELECT * FROM blocks order by number desc limit 1";

/// A block number.
#[derive(Debug, Clone, Copy, PartialEq, Eq, Structural)]
pub struct Number(u32);

impl View for Number {
    type V = int;

    closed spec fn view(&self) -> int {
        self.0 as int
    }
}

impl Number {
    /// The block number `value`.
    pub fn new(value: u32) -> (number: Number)
        ensures
            number@ == value,
    {
        Number(value)
    }

    /// The number as an unsigned integer.
    pub fn value(&self) -> (value: u32)
        ensures
            value == self@,
    {
        self.0
    }

    /// Every block number fits in 32 bits.
    pub proof fn lemma_view_range(self)
        ensures
            0 <= self@ <= u32::MAX,
    {
    }

    /// Two numbers with the same value are the same number.
    pub proof fn lemma_view_injective(self, other: Number)
        ensures
            self@ == other@ <==> self == other,
    {
    }

    /// The block number `hours` hours before this one at the fixed cadence,
    /// as a mathematical integer: negative where the chain is younger.
    pub open spec fn hours_before(self, hours: nat) -> int {
        self@ - hours * BLOCKS_PER_HOUR
    }

    /// The number of the block that was current `hours` hours before this
    /// one, at the fixed cadence: an approximation by arithmetic, which may
    /// name a block that the store does not hold.
    pub fn hours_ago(&self, hours: u32) -> (earlier: Number)
        requires
            self.hours_before(hours as nat) >= 0,
        ensures
            earlier@ == self.hours_before(hours as nat),
    {
        Number(self.0 - hours * BLOCKS_PER_HOUR)
    }

    /// `hours_ago` for every input: `None` where the chain is younger than
    /// `hours` hours at the fixed cadence.
    pub fn checked_hours_ago(&self, hours: u32) -> (earlier: Option<Number>)
        ensures
            earlier.is_some() <==> self.hours_before(hours as nat) >= 0,
            earlier.is_some() ==> earlier.unwrap()@ == self.hours_before(hours as nat),
    {
        if hours <= self.0 / BLOCKS_PER_HOUR {
            Some(self.hours_ago(hours))
        } else {
            None
        }
    }

    /// Going back zero hours names the same block.
    pub proof fn lemma_hours_ago_zero(self)
        ensures
            self.hours_before(0) == self@,
    {
    }

    /// Going back in two steps names the same block as going back once by
    /// the sum of the hours.
    pub proof fn lemma_hours_ago_adds(self, middle: Number, first: nat, second: nat)
        requires
            middle@ == self.hours_before(first),
        ensures
            middle.hours_before(second) == self.hours_before(first + second),
    {
        assert((first + second) * BLOCKS_PER_HOUR == first * BLOCKS_PER_HOUR + second
            * BLOCKS_PER_HOUR) by (nonlinear_arith);
    }
}

impl From<i32> for Number {
    /// The number held in a signed 32-bit column of the store, read as
    /// unsigned.
    fn from(value: i32) -> (number: Number) {
        Number(value as u32)
    }
}

impl FromSpecImpl<i32> for Number {
    open spec fn obeys_from_spec() -> bool {
        true
    }

    open spec fn from_spec(value: i32) -> Number {
        Number::from_column(value)
    }
}

impl Number {
    /// The number that a signed 32-bit column value stands for.
    pub closed spec fn from_column(value: i32) -> Number {
        Number(value as u32)
    }

    /// A column value stands for the number with the same 32 bits; one that
    /// is not negative stands for itself.
    pub proof fn lemma_from_column(value: i32)
        ensures
            Number::from_column(value)@ == value as u32,
            value >= 0 ==> Number::from_column(value)@ == value,
    {
    }

    /// The column value of a number stands for that number.
    pub proof fn lemma_column_round_trip(self)
        ensures
            Number::from_column(self.column()) == self,
            self@ <= i32::MAX ==> self.column() == self@,
    {
        let bits: u32 = self.0;
        assert(((bits as i32) as u32) == bits) by (bit_vector);
        assert(bits <= 0x7fff_ffffu32 ==> (bits as i32) as int == bits as int) by (bit_vector);
    }

    /// The number as the store's signed 32-bit column holds it.
    pub fn to_column(&self) -> (value: i32)
        ensures
            value == self.column(),
    {
        self.0 as i32
    }

    /// The signed 32-bit column value of this number: the value with the
    /// same 32 bits.
    pub open spec fn column(&self) -> i32 {
        (self@ as u32) as i32
    }
}

impl From<&Number> for i32 {
    /// The number as the store's signed 32-bit column holds it.
    fn from(value: &Number) -> (column: i32) {
        value.to_column()
    }
}

impl FromSpecImpl<&Number> for i32 {
    open spec fn obeys_from_spec() -> bool {
        true
    }

    open spec fn from_spec(value: &Number) -> i32 {
        value.column()
    }
}

/// A block of the chain, immutable once the indexer has written it.
#[derive(Debug)]
pub struct Block {
    pub hash: String,
    pub number: Number,
    /// Seconds since the Unix epoch.
    pub timestamp: u32,
}

impl Block {
    /// The block that a row of the `blocks` table stands for.
    pub fn from_row(hash: String, number: i32, timestamp: i32) -> (block: Block)
        ensures
            block.hash == hash,
            block.number == Number::from_column(number),
            block.timestamp == timestamp as u32,
    {
        Block { hash, number: Number::from(number), timestamp: timestamp as u32 }
    }
}

} // verus!
