//! What is asked of the store beyond single rows: the account of an email
//! address, and the ranking of pools by traded volume over a range of
//! blocks.
//!
//! A ranking reads the store for each of its pools. Each read is a step
//! value that says what to fetch; resolving it with what the store returned
//! gives the next step, or the error that ends the ranking.

use crate::account::{is_token_text, Account};
use crate::error::{zero_rows, zero_rows_text, QueryError};
use crate::models::amount::Amount;
use crate::models::block::Number;
use crate::models::coin::{cash_token, Coin, COIN_SQL};
use crate::models::pool::{Pool, POOL_SQL};
use crate::models::reserve::{
    summary_query, Reserve, Summary, LATEST_RESERVE_SQL, SUMMARIZE_X_SQL, SUMMARIZE_Y_SQL,
};
use vstd::prelude::*;

verus! {

/// How many pools a ranking holds at most. The cap bounds the lookups that
/// follow a ranking, one set per pool.
pub const TOP_POOLS_LIMIT: usize = 10;

/// The query that sums the swaps of each pool over the blocks after `$1` up
/// to and including `$2`, and orders the pools by their volume in the
/// reference unit.
pub const TOP_POOLS_SQL: &'static str =
    "select pool_contract_address, sum(in0) as sum_in0, sum(in0_eth) as sum_in0_eth, sum(in1) as sum_in1, sum(in1_eth) as sum_in1_eth, sum(in0_eth + in1_eth) as sum_eth, count(NULLIF(in0,0)) as count0, count(NULLIF(in1,0)) as count1 from swaps where block_number > $1 and block_number <= $2 group by pool_contract_address order by sum_eth desc limit 10";

/// What the swaps of one pool add up to over a range of blocks: the inflow
/// of each token, in its own unit and in the reference unit, the volume (both
/// inflows in the reference unit) and the number of trades on each side.
#[derive(Debug)]
pub struct PoolVolume {
    pub pool_contract_address: String,
    pub sum0: Amount,
    pub sum0_eth: Amount,
    pub sum1: Amount,
    pub sum1_eth: Amount,
    pub sum_eth: Amount,
    pub count0: i64,
    pub count1: i64,
}

/// Whether the volumes do not increase along the rows.
pub open spec fn ranked(rows: Seq<PoolVolume>) -> bool {
    forall|i: int, j: int|
        0 <= i < j < rows.len() ==> (#[trigger] rows[i]).sum_eth.at_least(
            &(#[trigger] rows[j]).sum_eth,
        )
}

/// `sorted` with `row` put behind the rows of greater volume that lead it.
pub open spec fn place(row: PoolVolume, sorted: Seq<PoolVolume>) -> Seq<PoolVolume>
    decreases sorted.len(),
{
    if sorted.len() > 0 && row.sum_eth.less_than(&sorted.first().sum_eth) {
        seq![sorted.first()] + place(row, sorted.drop_first())
    } else {
        seq![row] + sorted
    }
}

/// The rows in the order of their volume, the greatest first; rows of one
/// volume keep their order.
pub open spec fn rank(rows: Seq<PoolVolume>) -> Seq<PoolVolume>
    decreases rows.len(),
{
    if rows.len() == 0 {
        Seq::empty()
    } else {
        place(rows.first(), rank(rows.drop_first()))
    }
}

/// The first rows of the ranking, as many as the cap admits.
pub open spec fn top(rows: Seq<PoolVolume>) -> Seq<PoolVolume> {
    if rows.len() <= TOP_POOLS_LIMIT {
        rank(rows)
    } else {
        rank(rows).take(TOP_POOLS_LIMIT as int)
    }
}

/// Placing a row keeps all rows, adds that one, and keeps a ranking ranked.
pub proof fn lemma_place(row: PoolVolume, sorted: Seq<PoolVolume>)
    ensures
        place(row, sorted).len() == sorted.len() + 1,
        place(row, sorted).to_multiset() == sorted.to_multiset().insert(row),
        ranked(sorted) ==> ranked(place(row, sorted)),
    decreases sorted.len(),
{
    broadcast use vstd::seq_lib::group_to_multiset_ensures;

    let placed = place(row, sorted);
    if sorted.len() > 0 && row.sum_eth.less_than(&sorted.first().sum_eth) {
        let rest = sorted.drop_first();
        let inner = place(row, rest);
        lemma_place(row, rest);
        assert(sorted =~= seq![sorted.first()] + rest);
        assert(placed =~= seq![sorted.first()] + inner);
        assert(seq![sorted.first()] + inner =~= inner.insert(0, sorted.first()));
        assert(seq![sorted.first()] + rest =~= rest.insert(0, sorted.first()));
        inner.to_multiset_ensures();
        rest.to_multiset_ensures();
        assert(placed.to_multiset() =~= sorted.to_multiset().insert(row));
        if ranked(sorted) {
            assert forall|i: int, j: int| 0 <= i < j < rest.len() implies (#[trigger] rest[i]).sum_eth.at_least(
                &(#[trigger] rest[j]).sum_eth,
            ) by {
                assert(rest[i] == sorted[i + 1]);
                assert(rest[j] == sorted[j + 1]);
            }
            assert(ranked(inner));
            assert forall|j: int| 0 <= j < inner.len() implies sorted.first().sum_eth.at_least(
                &(#[trigger] inner[j]).sum_eth,
            ) by {
                assert(inner.to_multiset().count(inner[j]) > 0);
                if inner[j] == row {
                    row.sum_eth.lemma_at_least_total(&sorted.first().sum_eth);
                } else {
                    assert(rest.to_multiset().count(inner[j]) > 0);
                    let k = choose|k: int| 0 <= k < rest.len() && rest[k] == inner[j];
                    assert(rest[k] == sorted[k + 1]);
                    assert(sorted[0].sum_eth.at_least(&sorted[k + 1].sum_eth));
                }
            }
            assert forall|i: int, j: int| 0 <= i < j < placed.len() implies (#[trigger] placed[i]).sum_eth.at_least(
                &(#[trigger] placed[j]).sum_eth,
            ) by {
                assert(placed[j] == inner[j - 1]);
                if i > 0 {
                    assert(placed[i] == inner[i - 1]);
                }
            }
        }
    } else {
        assert(placed =~= sorted.insert(0, row));
        sorted.to_multiset_ensures();
        if ranked(sorted) {
            assert forall|i: int, j: int| 0 <= i < j < placed.len() implies (#[trigger] placed[i]).sum_eth.at_least(
                &(#[trigger] placed[j]).sum_eth,
            ) by {
                assert(placed[j] == sorted[j - 1]);
                if i > 0 {
                    assert(placed[i] == sorted[i - 1]);
                } else if j > 1 {
                    assert(sorted[0].sum_eth.at_least(&sorted[j - 1].sum_eth));
                    row.sum_eth.lemma_at_least_transitive(
                        &sorted[0].sum_eth,
                        &sorted[j - 1].sum_eth,
                    );
                }
            }
        }
    }
}

/// A ranking holds the rows it was made of, each as often as they held it,
/// and its volumes do not increase.
pub proof fn lemma_rank(rows: Seq<PoolVolume>)
    ensures
        rank(rows).len() == rows.len(),
        rank(rows).to_multiset() == rows.to_multiset(),
        ranked(rank(rows)),
    decreases rows.len(),
{
    broadcast use vstd::seq_lib::group_to_multiset_ensures;

    if rows.len() > 0 {
        let rest = rows.drop_first();
        lemma_rank(rest);
        lemma_place(rows.first(), rank(rest));
        assert(rows =~= rest.insert(0, rows.first()));
        rest.to_multiset_ensures();
    } else {
        assert(rank(rows).to_multiset() =~= rows.to_multiset());
    }
}

/// Rows that the store has ranked already stay as they are.
pub proof fn lemma_rank_of_ranked(rows: Seq<PoolVolume>)
    requires
        ranked(rows),
    ensures
        rank(rows) == rows,
    decreases rows.len(),
{
    if rows.len() > 0 {
        let rest = rows.drop_first();
        assert forall|i: int, j: int| 0 <= i < j < rest.len() implies (#[trigger] rest[i]).sum_eth.at_least(
            &(#[trigger] rest[j]).sum_eth,
        ) by {
            assert(rest[i] == rows[i + 1]);
            assert(rest[j] == rows[j + 1]);
        }
        lemma_rank_of_ranked(rest);
        if rest.len() > 0 {
            assert(rest.first() == rows[1]);
            assert(rows[0].sum_eth.at_least(&rows[1].sum_eth));
        }
        assert(rows =~= seq![rows.first()] + rest);
    } else {
        assert(rows =~= Seq::empty());
    }
}

/// The top of a ranking holds no more rows than the cap admits, its volumes
/// do not increase, and each of its rows is one of the rows given.
pub proof fn lemma_top(rows: Seq<PoolVolume>)
    ensures
        top(rows).len() <= TOP_POOLS_LIMIT,
        top(rows).len() <= rows.len(),
        ranked(top(rows)),
        forall|i: int| 0 <= i < top(rows).len() ==> rows.contains(#[trigger] top(rows)[i]),
        ranked(rows) && rows.len() <= TOP_POOLS_LIMIT ==> top(rows) == rows,
{
    broadcast use vstd::seq_lib::group_to_multiset_ensures;

    lemma_rank(rows);
    let all = rank(rows);
    let first = top(rows);
    assert forall|i: int, j: int| 0 <= i < j < first.len() implies (#[trigger] first[i]).sum_eth.at_least(
        &(#[trigger] first[j]).sum_eth,
    ) by {
        assert(first[i] == all[i]);
        assert(first[j] == all[j]);
    }
    assert forall|i: int| 0 <= i < first.len() implies rows.contains(#[trigger] first[i]) by {
        assert(first[i] == all[i]);
        assert(all.to_multiset().count(all[i]) > 0);
        assert(rows.to_multiset().count(all[i]) > 0);
    }
    if ranked(rows) {
        lemma_rank_of_ranked(rows);
    }
}

/// Placing a row is inserting it at the first place whose row is not of
/// greater volume.
proof fn lemma_place_at(row: PoolVolume, sorted: Seq<PoolVolume>, at: int)
    requires
        0 <= at <= sorted.len(),
        forall|j: int| 0 <= j < at ==> row.sum_eth.less_than(&(#[trigger] sorted[j]).sum_eth),
        at < sorted.len() ==> !row.sum_eth.less_than(&sorted[at].sum_eth),
    ensures
        place(row, sorted) == sorted.insert(at, row),
    decreases sorted.len(),
{
    if at == 0 {
        assert(place(row, sorted) =~= sorted.insert(0, row));
    } else {
        assert(row.sum_eth.less_than(&sorted[0].sum_eth));
        let rest = sorted.drop_first();
        assert forall|j: int| 0 <= j < at - 1 implies row.sum_eth.less_than(
            &(#[trigger] rest[j]).sum_eth,
        ) by {
            assert(rest[j] == sorted[j + 1]);
        }
        if at - 1 < rest.len() {
            assert(rest[at - 1] == sorted[at]);
        }
        lemma_place_at(row, rest, at - 1);
        assert(seq![sorted.first()] + rest.insert(at - 1, row) =~= sorted.insert(at, row));
    }
}

/// Ranks the rows of the volume query by volume, the greatest first, and
/// keeps the first ten: what the store's own order and limit give, held to
/// whatever the store returned.
pub fn top_volumes(rows: Vec<PoolVolume>) -> (first: Vec<PoolVolume>)
    ensures
        first@ == top(rows@),
        first@.len() <= TOP_POOLS_LIMIT,
        ranked(first@),
{
    let ghost given = rows@;
    let mut rest = rows;
    let mut sorted: Vec<PoolVolume> = Vec::new();
    assert(given.skip(given.len() as int) =~= Seq::empty());
    while rest.len() > 0
        invariant
            rest@ == given.take(rest@.len() as int),
            rest@.len() <= given.len(),
            sorted@ == rank(given.skip(rest@.len() as int)),
        decreases rest@.len(),
    {
        let ghost before = rest@.len() as int;
        let row = rest.pop().unwrap();
        let mut at: usize = 0;
        proof {
            lemma_rank(given.skip(before));
        }
        while at < sorted.len() && row.sum_eth.is_less_than(&sorted[at].sum_eth)
            invariant
                at <= sorted@.len(),
                forall|j: int|
                    0 <= j < at ==> row.sum_eth.less_than(&(#[trigger] sorted@[j]).sum_eth),
            decreases sorted@.len() - at,
        {
            at += 1;
        }
        proof {
            lemma_place_at(row, sorted@, at as int);
            assert(row == given[before - 1]);
            assert(given.skip(before - 1).first() == row);
            assert(given.skip(before - 1).drop_first() =~= given.skip(before));
            assert(rest@ =~= given.take(before - 1));
        }
        sorted.insert(at, row);
    }
    proof {
        assert(given.skip(0) =~= given);
        lemma_rank(given);
        lemma_top(given);
    }
    sorted.truncate(TOP_POOLS_LIMIT);
    assert(sorted@ =~= top(given));
    sorted
}

/// The query for an account by its email address.
pub const ACCOUNT_BY_EMAIL_SQL: &'static str = "SELECT * FROM auth WHERE email = $1";

/// The query for an account by its token.
pub const ACCOUNT_BY_TOKEN_SQL: &'static str = "SELECT * FROM auth WHERE token = $1";

/// The statement that stores an account: its id, its email address and its
/// token.
pub const INSERT_ACCOUNT_SQL: &'static str = "INSERT INTO auth values ($1, $2, $3)";

/// The account of an email address, and whether the store has yet to be
/// given it.
#[derive(Debug)]
pub struct Enrollment {
    pub account: Account,
    /// Whether the account is new and is to be inserted.
    pub insert: bool,
}

/// The account of `email`: the one that the store holds where it holds
/// one, else a new one, which the store is to be given.
pub fn find_or_create_by_email(found: Option<Account>, email: &str) -> (enrollment: Enrollment)
    ensures
        match found {
            Some(account) => enrollment.account == account && !enrollment.insert,
            None => {
                &&& enrollment.insert
                &&& enrollment.account.email@ == email@
                &&& is_token_text(enrollment.account.id@)
                &&& is_token_text(enrollment.account.token@)
            },
        },
{
    match found {
        Some(account) => Enrollment { account, insert: false },
        None => Enrollment { account: Account::from_email(email), insert: true },
    }
}

/// Whether the volumes of the pools do not increase along them.
pub open spec fn ranked_pools(pools: Seq<Pool>) -> bool {
    forall|i: int, j: int|
        0 <= i < j < pools.len() ==> {
            &&& (#[trigger] pools[i]).sum_eth.is_some()
            &&& (#[trigger] pools[j]).sum_eth.is_some()
            &&& pools[i].sum_eth.unwrap().at_least(&pools[j].sum_eth.unwrap())
        }
}

/// The pool as a ranking shows it: the store's pool with its latest
/// reserve, its two coins, the sums and counts of its row, and the summary
/// of its reserves where there is one.
pub open spec fn decorated(
    pool: Pool,
    row: PoolVolume,
    reserve: Reserve,
    summary: Option<Summary>,
    coin0: Coin,
    coin1: Coin,
) -> Pool {
    Pool {
        contract_address: pool.contract_address,
        token0: pool.token0,
        token1: pool.token1,
        reserve: Some(reserve),
        coin0: Some(coin0),
        coin1: Some(coin1),
        count0: Some(row.count0),
        count1: Some(row.count1),
        reserve_summary: summary,
        sum0: Some(row.sum0),
        sum0_eth: Some(row.sum0_eth),
        sum1: Some(row.sum1),
        sum1_eth: Some(row.sum1_eth),
        sum_eth: Some(row.sum_eth),
    }
}

/// The summary with its range set to the blocks after `start` up to and
/// including `stop`.
pub open spec fn over_range(summary: Summary, start: Number, stop: Number) -> Summary {
    Summary {
        start_block_number: start,
        stop_block_number: stop,
        count: summary.count,
        stddev: summary.stddev,
        min: summary.min,
        max: summary.max,
    }
}

/// Whether the summary, where there is one, is over the blocks after
/// `start` up to and including `stop`.
pub open spec fn summary_in_range(summary: Option<Summary>, start: Number, stop: Number) -> bool {
    summary matches Some(s) ==> s.start_block_number == start && s.stop_block_number == stop
}

/// Whether the pool is complete as a ranking over the blocks after `start`
/// up to and including `stop` shows it: it has its reserve, its two coins,
/// its two counts and its five sums, and it carries a summary of its
/// reserves exactly if it holds the reference token, over that range.
pub open spec fn complete(pool: Pool, start: Number, stop: Number) -> bool {
    &&& pool.reserve.is_some()
    &&& pool.coin0.is_some()
    &&& pool.coin1.is_some()
    &&& pool.count0.is_some()
    &&& pool.count1.is_some()
    &&& pool.sum0.is_some()
    &&& pool.sum0_eth.is_some()
    &&& pool.sum1.is_some()
    &&& pool.sum1_eth.is_some()
    &&& pool.sum_eth.is_some()
    &&& pool.summary_follows_cash()
    &&& summary_in_range(pool.reserve_summary, start, stop)
}

/// The volume at place `i` of a ranking in the making: the pools that it
/// holds already come first, then the rows that it has yet to turn into
/// pools.
pub open spec fn volume_at(pools: Seq<Pool>, rows: Seq<PoolVolume>, i: int) -> Amount {
    if i < pools.len() {
        pools[i].sum_eth.unwrap()
    } else {
        rows[i - pools.len()].sum_eth
    }
}

/// What holds of a ranking over the blocks after `start` up to and
/// including `stop` at every step: it will hold no more pools than the cap
/// admits, the volumes do not increase from the pools on through the rows,
/// and each pool is complete.
pub open spec fn in_order(
    start: Number,
    stop: Number,
    pools: Seq<Pool>,
    rows: Seq<PoolVolume>,
) -> bool {
    &&& pools.len() + rows.len() <= TOP_POOLS_LIMIT
    &&& forall|i: int| 0 <= i < pools.len() ==> complete(#[trigger] pools[i], start, stop)
    &&& forall|i: int, j: int|
        #![trigger volume_at(pools, rows, i), volume_at(pools, rows, j)]
        0 <= i < j < pools.len() + rows.len() ==> volume_at(pools, rows, i).at_least(
            &volume_at(pools, rows, j),
        )
}

/// The range of blocks, the pools made and the rows that wait.
struct Run {
    start: Number,
    stop: Number,
    pools: Vec<Pool>,
    waiting: Vec<PoolVolume>,
}

/// A ranking of pools in the making: the pools that it holds already, in
/// the order of their volume, and the rows of the pools that follow.
pub struct TopPools {
    run: Run,
}

/// What a ranking does next.
pub enum Progress {
    /// The next pool is to be read from the store.
    Lookup(PoolStep),
    /// The ranking is complete.
    Done(Vec<Pool>),
}

/// The read of the pool of the next row.
pub struct PoolStep {
    run: Run,
    row: PoolVolume,
}

/// The read of the pool's latest reserve.
pub struct ReserveStep {
    run: Run,
    row: PoolVolume,
    pool: Pool,
}

/// The read of the summary of the pool's reserves, for a pool that holds
/// the reference token.
pub struct SummaryStep {
    run: Run,
    row: PoolVolume,
    pool: Pool,
    reserve: Reserve,
}

/// The read of the pool's token 0.
pub struct Coin0Step {
    run: Run,
    row: PoolVolume,
    pool: Pool,
    reserve: Reserve,
    summary: Option<Summary>,
}

/// The read of the pool's token 1.
pub struct Coin1Step {
    run: Run,
    row: PoolVolume,
    pool: Pool,
    reserve: Reserve,
    summary: Option<Summary>,
    coin0: Coin,
}

/// What follows the read of a reserve.
pub enum AfterReserve {
    /// The pool holds the reference token: its reserves are summarized.
    Summary(SummaryStep),
    /// It does not: its coins are read next.
    Coin(Coin0Step),
}

impl TopPools {
    #[verifier::type_invariant]
    pub closed spec fn wf(&self) -> bool {
        in_order(self.run.start, self.run.stop, self.run.pools@, self.run.waiting@)
    }

    /// The pools made so far.
    pub closed spec fn pools(&self) -> Seq<Pool> {
        self.run.pools@
    }

    /// The rows whose pools follow.
    pub closed spec fn waiting(&self) -> Seq<PoolVolume> {
        self.run.waiting@
    }

    /// The block after which the range begins.
    pub closed spec fn start(&self) -> Number {
        self.run.start
    }

    /// The last block of the range.
    pub closed spec fn stop(&self) -> Number {
        self.run.stop
    }

    /// The next step: the read of the pool of the first row that waits, or
    /// the finished ranking where none does. A finished ranking holds no
    /// more pools than the cap admits, in the order of their volume, each
    /// complete: with its reserve, coins, counts and sums, and with a
    /// summary of its reserves over the ranking's range exactly if it holds
    /// the reference token.
    pub fn next(self) -> (progress: Progress)
        ensures
            match progress {
                Progress::Done(pools) => {
                    &&& self.waiting().len() == 0
                    &&& pools@ == self.pools()
                    &&& pools@.len() <= TOP_POOLS_LIMIT
                    &&& ranked_pools(pools@)
                    &&& forall|i: int|
                        0 <= i < pools@.len() ==> (#[trigger] pools@[i]).summary_follows_cash()
                    &&& forall|i: int|
                        0 <= i < pools@.len() ==> complete(
                            #[trigger] pools@[i],
                            self.start(),
                            self.stop(),
                        )
                },
                Progress::Lookup(step) => {
                    &&& self.waiting().len() > 0
                    &&& step.row() == self.waiting()[0]
                    &&& step.pools() == self.pools()
                    &&& step.waiting() == self.waiting().drop_first()
                    &&& step.start() == self.start()
                    &&& step.stop() == self.stop()
                },
            },
    {
        proof {
            use_type_invariant(&self);
        }
        let mut run = self.run;
        if run.waiting.len() == 0 {
            proof {
                let pools = run.pools@;
                assert forall|i: int, j: int| 0 <= i < j < pools.len() implies {
                    &&& (#[trigger] pools[i]).sum_eth.is_some()
                    &&& (#[trigger] pools[j]).sum_eth.is_some()
                    &&& pools[i].sum_eth.unwrap().at_least(&pools[j].sum_eth.unwrap())
                } by {
                    assert(volume_at(pools, run.waiting@, i).at_least(
                        &volume_at(pools, run.waiting@, j),
                    ));
                }
            }
            Progress::Done(run.pools)
        } else {
            let ghost before = run.waiting@;
            let row = run.waiting.remove(0);
            proof {
                assert(run.waiting@ =~= before.drop_first());
                assert(seq![row] + run.waiting@ =~= before);
            }
            Progress::Lookup(PoolStep { run, row })
        }
    }
}

impl PoolStep {
    #[verifier::type_invariant]
    pub closed spec fn wf(&self) -> bool {
        in_order(
            self.run.start,
            self.run.stop,
            self.run.pools@,
            seq![self.row] + self.run.waiting@,
        )
    }

    /// The pools made so far.
    pub closed spec fn pools(&self) -> Seq<Pool> {
        self.run.pools@
    }

    /// The rows whose pools follow this one.
    pub closed spec fn waiting(&self) -> Seq<PoolVolume> {
        self.run.waiting@
    }

    /// The block after which the range begins.
    pub closed spec fn start(&self) -> Number {
        self.run.start
    }

    /// The last block of the range.
    pub closed spec fn stop(&self) -> Number {
        self.run.stop
    }

    /// The row of the pool in the making.
    pub closed spec fn row(&self) -> PoolVolume {
        self.row
    }

    /// The contract address of the pool to read.
    pub fn address(&self) -> (address: &str)
        ensures
            address@ == self.row().pool_contract_address@,
    {
        self.row.pool_contract_address.as_str()
    }

    /// With the pool that the store holds under the row's address, goes on
    /// to its reserve; without one the ranking ends.
    pub fn resolve(self, found: Option<Pool>) -> (next: Result<ReserveStep, QueryError>)
        ensures
            match found {
                Some(pool) => next matches Ok(step) && {
                    &&& step.pool() == pool
                    &&& step.row() == self.row()
                    &&& step.pools() == self.pools()
                    &&& step.waiting() == self.waiting()
                    &&& step.start() == self.start()
                    &&& step.stop() == self.stop()
                },
                None => next matches Err(QueryError::NotFound(m)) && m@ == zero_rows_text(
                    POOL_SQL@,
                    seq![self.row().pool_contract_address@],
                ),
            },
    {
        proof {
            use_type_invariant(&self);
        }
        match found {
            Some(pool) => Ok(ReserveStep { run: self.run, row: self.row, pool }),
            None => Err(zero_rows(POOL_SQL, self.row.pool_contract_address.as_str())),
        }
    }
}

impl ReserveStep {
    #[verifier::type_invariant]
    pub closed spec fn wf(&self) -> bool {
        in_order(
            self.run.start,
            self.run.stop,
            self.run.pools@,
            seq![self.row] + self.run.waiting@,
        )
    }

    /// The pools made so far.
    pub closed spec fn pools(&self) -> Seq<Pool> {
        self.run.pools@
    }

    /// The rows whose pools follow this one.
    pub closed spec fn waiting(&self) -> Seq<PoolVolume> {
        self.run.waiting@
    }

    /// The block after which the range begins.
    pub closed spec fn start(&self) -> Number {
        self.run.start
    }

    /// The last block of the range.
    pub closed spec fn stop(&self) -> Number {
        self.run.stop
    }

    /// The row of the pool in the making.
    pub closed spec fn row(&self) -> PoolVolume {
        self.row
    }

    /// The pool as the store holds it.
    pub closed spec fn pool(&self) -> Pool {
        self.pool
    }

    /// The contract address of the pool whose reserve is to be read.
    pub fn address(&self) -> (address: &str)
        ensures
            address@ == self.row().pool_contract_address@,
    {
        self.row.pool_contract_address.as_str()
    }

    /// With the latest reserve of the pool, goes on to the summary of its
    /// reserves where the pool holds the reference token, and to its coins
    /// where it does not; without a reserve the ranking ends.
    pub fn resolve(self, found: Option<Reserve>) -> (next: Result<AfterReserve, QueryError>)
        ensures
            match found {
                Some(reserve) => if self.pool().holds_cash_token() {
                    next matches Ok(AfterReserve::Summary(step)) && {
                        &&& step.pool() == self.pool()
                        &&& step.reserve() == reserve
                        &&& step.row() == self.row()
                        &&& step.pools() == self.pools()
                        &&& step.waiting() == self.waiting()
                        &&& step.start() == self.start()
                        &&& step.stop() == self.stop()
                    }
                } else {
                    next matches Ok(AfterReserve::Coin(step)) && {
                        &&& step.pool() == self.pool()
                        &&& step.reserve() == reserve
                        &&& step.summary() == None::<Summary>
                        &&& step.row() == self.row()
                        &&& step.pools() == self.pools()
                        &&& step.waiting() == self.waiting()
                        &&& step.start() == self.start()
                        &&& step.stop() == self.stop()
                    }
                },
                None => next matches Err(QueryError::NotFound(m)) && m@ == zero_rows_text(
                    LATEST_RESERVE_SQL@,
                    seq![self.row().pool_contract_address@],
                ),
            },
    {
        proof {
            use_type_invariant(&self);
        }
        match found {
            Some(reserve) => {
                if self.pool.has_cash_token() {
                    Ok(
                        AfterReserve::Summary(
                            SummaryStep { run: self.run, row: self.row, pool: self.pool, reserve },
                        ),
                    )
                } else {
                    Ok(
                        AfterReserve::Coin(
                            Coin0Step {
                                run: self.run,
                                row: self.row,
                                pool: self.pool,
                                reserve,
                                summary: None,
                            },
                        ),
                    )
                }
            },
            None => Err(zero_rows(LATEST_RESERVE_SQL, self.row.pool_contract_address.as_str())),
        }
    }
}

impl SummaryStep {
    #[verifier::type_invariant]
    pub closed spec fn wf(&self) -> bool {
        &&& in_order(
            self.run.start,
            self.run.stop,
            self.run.pools@,
            seq![self.row] + self.run.waiting@,
        )
        &&& self.pool.holds_cash_token()
    }

    /// The pools made so far.
    pub closed spec fn pools(&self) -> Seq<Pool> {
        self.run.pools@
    }

    /// The rows whose pools follow this one.
    pub closed spec fn waiting(&self) -> Seq<PoolVolume> {
        self.run.waiting@
    }

    /// The block after which the range begins.
    pub closed spec fn start(&self) -> Number {
        self.run.start
    }

    /// The last block of the range.
    pub closed spec fn stop(&self) -> Number {
        self.run.stop
    }

    /// The row of the pool in the making.
    pub closed spec fn row(&self) -> PoolVolume {
        self.row
    }

    /// The pool as the store holds it.
    pub closed spec fn pool(&self) -> Pool {
        self.pool
    }

    /// The latest reserve of the pool.
    pub closed spec fn reserve(&self) -> Reserve {
        self.reserve
    }

    /// The contract address of the pool whose reserves are summarized.
    pub fn address(&self) -> (address: &str)
        ensures
            address@ == self.row().pool_contract_address@,
    {
        self.row.pool_contract_address.as_str()
    }

    /// The range of the summary: the blocks after the first number up to
    /// and including the second.
    pub fn range(&self) -> (range: (Number, Number))
        ensures
            range == (self.start(), self.stop()),
    {
        (self.run.start, self.run.stop)
    }

    /// The summary query: over the side of the reserves that is not the
    /// reference token's.
    pub fn sql(&self) -> (sql: &'static str)
        ensures
            sql == if cash_token(self.pool().token1@) {
                SUMMARIZE_X_SQL
            } else {
                SUMMARIZE_Y_SQL
            },
    {
        summary_query(self.pool.cash_token_is_1())
    }

    /// With the summary of the pool's reserves, goes on to its coins: the
    /// summary is held to the range of the ranking, whatever range it came
    /// with. Where the store failed the ranking ends.
    pub fn resolve(self, found: Result<Summary, String>) -> (next: Result<Coin0Step, QueryError>)
        ensures
            match found {
                Ok(summary) => next matches Ok(step) && {
                    &&& step.pool() == self.pool()
                    &&& step.reserve() == self.reserve()
                    &&& step.summary() == Some(over_range(summary, self.start(), self.stop()))
                    &&& step.row() == self.row()
                    &&& step.pools() == self.pools()
                    &&& step.waiting() == self.waiting()
                    &&& step.start() == self.start()
                    &&& step.stop() == self.stop()
                },
                Err(cause) => next == Err::<Coin0Step, QueryError>(QueryError::Upstream(cause)),
            },
    {
        proof {
            use_type_invariant(&self);
        }
        match found {
            Ok(summary) => {
                let held = Summary {
                    start_block_number: self.run.start,
                    stop_block_number: self.run.stop,
                    count: summary.count,
                    stddev: summary.stddev,
                    min: summary.min,
                    max: summary.max,
                };
                Ok(
                    Coin0Step {
                        run: self.run,
                        row: self.row,
                        pool: self.pool,
                        reserve: self.reserve,
                        summary: Some(held),
                    },
                )
            },
            Err(cause) => Err(QueryError::Upstream(cause)),
        }
    }
}

impl Coin0Step {
    #[verifier::type_invariant]
    pub closed spec fn wf(&self) -> bool {
        &&& in_order(
            self.run.start,
            self.run.stop,
            self.run.pools@,
            seq![self.row] + self.run.waiting@,
        )
        &&& self.summary.is_some() <==> self.pool.holds_cash_token()
        &&& summary_in_range(self.summary, self.run.start, self.run.stop)
    }

    /// The pools made so far.
    pub closed spec fn pools(&self) -> Seq<Pool> {
        self.run.pools@
    }

    /// The rows whose pools follow this one.
    pub closed spec fn waiting(&self) -> Seq<PoolVolume> {
        self.run.waiting@
    }

    /// The block after which the range begins.
    pub closed spec fn start(&self) -> Number {
        self.run.start
    }

    /// The last block of the range.
    pub closed spec fn stop(&self) -> Number {
        self.run.stop
    }

    /// The row of the pool in the making.
    pub closed spec fn row(&self) -> PoolVolume {
        self.row
    }

    /// The pool as the store holds it.
    pub closed spec fn pool(&self) -> Pool {
        self.pool
    }

    /// The latest reserve of the pool.
    pub closed spec fn reserve(&self) -> Reserve {
        self.reserve
    }

    /// The summary of the pool's reserves, where it has one.
    pub closed spec fn summary(&self) -> Option<Summary> {
        self.summary
    }

    /// The contract address of the coin to read: the pool's token 0.
    pub fn address(&self) -> (address: &str)
        ensures
            address@ == self.pool().token0@,
    {
        self.pool.token0.as_str()
    }

    /// With the coin of token 0, goes on to token 1; without it the ranking
    /// ends.
    pub fn resolve(self, found: Option<Coin>) -> (next: Result<Coin1Step, QueryError>)
        ensures
            match found {
                Some(coin0) => next matches Ok(step) && {
                    &&& step.coin0() == coin0
                    &&& step.pool() == self.pool()
                    &&& step.reserve() == self.reserve()
                    &&& step.summary() == self.summary()
                    &&& step.row() == self.row()
                    &&& step.pools() == self.pools()
                    &&& step.waiting() == self.waiting()
                    &&& step.start() == self.start()
                    &&& step.stop() == self.stop()
                },
                None => next matches Err(QueryError::NotFound(m)) && m@ == zero_rows_text(
                    COIN_SQL@,
                    seq![self.pool().token0@],
                ),
            },
    {
        proof {
            use_type_invariant(&self);
        }
        match found {
            Some(coin0) => Ok(
                Coin1Step {
                    run: self.run,
                    row: self.row,
                    pool: self.pool,
                    reserve: self.reserve,
                    summary: self.summary,
                    coin0,
                },
            ),
            None => Err(zero_rows(COIN_SQL, self.pool.token0.as_str())),
        }
    }
}

impl Coin1Step {
    #[verifier::type_invariant]
    pub closed spec fn wf(&self) -> bool {
        &&& in_order(
            self.run.start,
            self.run.stop,
            self.run.pools@,
            seq![self.row] + self.run.waiting@,
        )
        &&& self.summary.is_some() <==> self.pool.holds_cash_token()
        &&& summary_in_range(self.summary, self.run.start, self.run.stop)
    }

    /// The pools made so far.
    pub closed spec fn pools(&self) -> Seq<Pool> {
        self.run.pools@
    }

    /// The rows whose pools follow this one.
    pub closed spec fn waiting(&self) -> Seq<PoolVolume> {
        self.run.waiting@
    }

    /// The block after which the range begins.
    pub closed spec fn start(&self) -> Number {
        self.run.start
    }

    /// The last block of the range.
    pub closed spec fn stop(&self) -> Number {
        self.run.stop
    }

    /// The row of the pool in the making.
    pub closed spec fn row(&self) -> PoolVolume {
        self.row
    }

    /// The pool as the store holds it.
    pub closed spec fn pool(&self) -> Pool {
        self.pool
    }

    /// The latest reserve of the pool.
    pub closed spec fn reserve(&self) -> Reserve {
        self.reserve
    }

    /// The summary of the pool's reserves, where it has one.
    pub closed spec fn summary(&self) -> Option<Summary> {
        self.summary
    }

    /// The coin of the pool's token 0.
    pub closed spec fn coin0(&self) -> Coin {
        self.coin0
    }

    /// The contract address of the coin to read: the pool's token 1.
    pub fn address(&self) -> (address: &str)
        ensures
            address@ == self.pool().token1@,
    {
        self.pool.token1.as_str()
    }

    /// With the coin of token 1 the pool is complete and joins the ranking
    /// behind the pools made before it; without the coin the ranking ends.
    pub fn resolve(self, found: Option<Coin>) -> (next: Result<TopPools, QueryError>)
        ensures
            match found {
                Some(coin1) => next matches Ok(ranking) && {
                    &&& ranking.pools() == self.pools().push(
                        decorated(
                            self.pool(),
                            self.row(),
                            self.reserve(),
                            self.summary(),
                            self.coin0(),
                            coin1,
                        ),
                    )
                    &&& ranking.waiting() == self.waiting()
                    &&& ranking.start() == self.start()
                    &&& ranking.stop() == self.stop()
                },
                None => next matches Err(QueryError::NotFound(m)) && m@ == zero_rows_text(
                    COIN_SQL@,
                    seq![self.pool().token1@],
                ),
            },
    {
        proof {
            use_type_invariant(&self);
        }
        match found {
            Some(coin1) => {
                let mut run = self.run;
                let row = self.row;
                let pool = Pool {
                    contract_address: self.pool.contract_address,
                    token0: self.pool.token0,
                    token1: self.pool.token1,
                    reserve: Some(self.reserve),
                    coin0: Some(self.coin0),
                    coin1: Some(coin1),
                    count0: Some(row.count0),
                    count1: Some(row.count1),
                    reserve_summary: self.summary,
                    sum0: Some(row.sum0),
                    sum0_eth: Some(row.sum0_eth),
                    sum1: Some(row.sum1),
                    sum1_eth: Some(row.sum1_eth),
                    sum_eth: Some(row.sum_eth),
                };
                let ghost before = run.pools@;
                let ghost rows = seq![self.row] + run.waiting@;
                run.pools.push(pool);
                proof {
                    assert forall|i: int, j: int|
                        #![trigger
                            volume_at(run.pools@, run.waiting@, i),
                            volume_at(run.pools@, run.waiting@, j),
                        ]
                        0 <= i < j < run.pools@.len() + run.waiting@.len() implies volume_at(
                        run.pools@,
                        run.waiting@,
                        i,
                    ).at_least(&volume_at(run.pools@, run.waiting@, j)) by {
                        assert(volume_at(run.pools@, run.waiting@, i) == volume_at(
                            before,
                            rows,
                            i,
                        ));
                        assert(volume_at(run.pools@, run.waiting@, j) == volume_at(
                            before,
                            rows,
                            j,
                        ));
                    }
                    assert forall|i: int| 0 <= i < run.pools@.len() implies complete(
                        #[trigger] run.pools@[i],
                        run.start,
                        run.stop,
                    ) by {
                        if i < before.len() {
                            assert(run.pools@[i] == before[i]);
                        }
                    }
                }
                Ok(TopPools { run })
            },
            None => Err(zero_rows(COIN_SQL, self.pool.token1.as_str())),
        }
    }
}

/// Opens the ranking of the pools over the blocks after `start_block` up to
/// and including `stop_block`, with the rows that the volume query gave:
/// the rows are ranked and capped as `top_volumes` says. Where the store
/// failed the ranking is empty.
pub fn top_pools(
    start_block: &Number,
    stop_block: &Number,
    found: Result<Vec<PoolVolume>, String>,
) -> (ranking: TopPools)
    ensures
        ranking.pools() == Seq::<Pool>::empty(),
        ranking.waiting() == match found {
            Ok(rows) => top(rows@),
            Err(_) => Seq::<PoolVolume>::empty(),
        },
        ranking.start() == *start_block,
        ranking.stop() == *stop_block,
{
    let waiting = match found {
        Ok(rows) => top_volumes(rows),
        Err(_) => Vec::new(),
    };
    let pools: Vec<Pool> = Vec::new();
    proof {
        assert forall|i: int, j: int|
            #![trigger volume_at(pools@, waiting@, i), volume_at(pools@, waiting@, j)]
            0 <= i < j < pools@.len() + waiting@.len() implies volume_at(
            pools@,
            waiting@,
            i,
        ).at_least(&volume_at(pools@, waiting@, j)) by {
            assert(volume_at(pools@, waiting@, i) == waiting@[i].sum_eth);
            assert(volume_at(pools@, waiting@, j) == waiting@[j].sum_eth);
        }
    }
    TopPools { run: Run { start: *start_block, stop: *stop_block, pools, waiting } }
}

} // verus!
