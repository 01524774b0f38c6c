//! The relational store model: every table is a sequence of rows, and every
//! write is an upsert under that table's conflict rule.
//!
//! The rules, per table and key:
//! - trades, by trade address: a create is insert-or-do-nothing; an
//!   update/complete/cancel is insert-or-overwrite of the mutable columns.
//! - trader_stats, by trader address: insert, or additive merge of every
//!   counter with the last-update timestamp overwritten.
//! - hyperion_pools, by pool address: insert-or-overwrite of the
//!   point-in-time state columns.
//! - hyperion_swaps, by swap id: insert-or-do-nothing.
//! - hyperion_pool_stats, by pool address: insert-or-overwrite of the batch
//!   snapshot columns. Overwrite is chosen deliberately over an additive
//!   merge: it keeps replay of a batch idempotent for this table.

use vstd::prelude::*;
use crate::trade::Trade;
use crate::trader_stat::TraderStat;
use crate::hyperion_pool::HyperionPool;
use crate::hyperion_pool_stat::HyperionPoolStat;
use crate::hyperion_swap::HyperionSwap;

verus! {

/// The one failure a write can hit in this model: an additive counter would
/// leave 64-bit range. It fails the whole batch, as any storage rejection
/// does.
#[derive(Clone, Copy, Debug, PartialEq, Eq, Structural)]
pub enum StoreError {
    CounterOverflow,
}

/// The whole relational store.
#[derive(Debug)]
pub struct Database {
    pub trades: Vec<Trade>,
    pub trader_stats: Vec<TraderStat>,
    pub hyperion_pools: Vec<HyperionPool>,
    pub hyperion_swaps: Vec<HyperionSwap>,
    pub hyperion_pool_stats: Vec<HyperionPoolStat>,
    pub checkpoints: Vec<crate::checkpoint::Checkpoint>,
}

impl Database {
    /// An empty store.
    pub fn new() -> (db: Database)
        ensures
            db.trades@ =~= Seq::<Trade>::empty(),
            db.trader_stats@ =~= Seq::<TraderStat>::empty(),
            db.hyperion_pools@ =~= Seq::<HyperionPool>::empty(),
            db.hyperion_swaps@ =~= Seq::<HyperionSwap>::empty(),
            db.hyperion_pool_stats@ =~= Seq::<HyperionPoolStat>::empty(),
            db.checkpoints@ =~= Seq::<crate::checkpoint::Checkpoint>::empty(),
    {
        Database {
            trades: Vec::new(),
            trader_stats: Vec::new(),
            hyperion_pools: Vec::new(),
            hyperion_swaps: Vec::new(),
            hyperion_pool_stats: Vec::new(),
            checkpoints: Vec::new(),
        }
    }
}

/// Index of the first key equal to `k`, or -1.
pub open spec fn find_key(keys: Seq<Seq<char>>, k: Seq<char>) -> int
    decreases keys.len(),
{
    if keys.len() == 0 {
        -1
    } else if keys[0] == k {
        0
    } else if find_key(keys.skip(1), k) == -1 {
        -1
    } else {
        find_key(keys.skip(1), k) + 1
    }
}

/// What `find_key` returns: the first match, or -1 when no key matches.
pub proof fn lemma_find_key_props(keys: Seq<Seq<char>>, k: Seq<char>)
    ensures
        -1 <= find_key(keys, k) < keys.len(),
        find_key(keys, k) >= 0 ==> keys[find_key(keys, k)] == k,
        find_key(keys, k) >= 0 ==> forall|j: int|
            0 <= j < find_key(keys, k) ==> keys[j] != k,
        find_key(keys, k) == -1 ==> forall|j: int| 0 <= j < keys.len() ==> keys[j] != k,
    decreases keys.len(),
{
    if keys.len() > 0 && keys[0] != k {
        lemma_find_key_props(keys.skip(1), k);
        assert(forall|j: int| 1 <= j < keys.len() ==> keys[j] == keys.skip(1)[j - 1]);
    }
}

/// The converse: a first match at `i` pins `find_key` to `i`.
pub proof fn lemma_find_key_at(keys: Seq<Seq<char>>, k: Seq<char>, i: int)
    requires
        0 <= i < keys.len(),
        keys[i] == k,
        forall|j: int| 0 <= j < i ==> keys[j] != k,
    ensures
        find_key(keys, k) == i,
    decreases keys.len(),
{
    if keys[0] != k {
        assert(forall|j: int| 0 <= j < i - 1 ==> keys.skip(1)[j] == keys[j + 1]);
        lemma_find_key_at(keys.skip(1), k, i - 1);
    }
}

/// No match anywhere pins `find_key` to -1.
pub proof fn lemma_find_key_absent(keys: Seq<Seq<char>>, k: Seq<char>)
    requires
        forall|j: int| 0 <= j < keys.len() ==> keys[j] != k,
    ensures
        find_key(keys, k) == -1,
{
    lemma_find_key_props(keys, k);
    if find_key(keys, k) >= 0 {
        assert(keys[find_key(keys, k)] == k);
        assert(false);
    }
}

/// All keys pairwise distinct.
pub open spec fn distinct_keys(keys: Seq<Seq<char>>) -> bool {
    forall|i: int, j: int| 0 <= i < j < keys.len() ==> keys[i] != keys[j]
}

// ---------------------------------------------------------------------------
// trades
// ---------------------------------------------------------------------------

pub open spec fn trades_keys(s: Seq<Trade>) -> Seq<Seq<char>> {
    s.map_values(|t: Trade| t.trade_obj_addr@)
}

/// The overwrite half of the trades conflict rule: status, amounts, price,
/// notes and the last-update stamp come from the incoming row; identity and
/// creation data stay.
pub open spec fn merge_trade(orig: Trade, upd: Trade) -> Trade {
    Trade {
        status: upd.status,
        amount_from: upd.amount_from,
        amount_to: upd.amount_to,
        price: upd.price,
        notes: upd.notes,
        last_update_timestamp: upd.last_update_timestamp,
        last_update_event_idx: upd.last_update_event_idx,
        ..orig
    }
}

/// Insert-or-do-nothing: replay of a create is absorbed.
pub open spec fn upsert_trade_create(s: Seq<Trade>, r: Trade) -> Seq<Trade> {
    if find_key(trades_keys(s), r.trade_obj_addr@) >= 0 {
        s
    } else {
        s.push(r)
    }
}

/// Insert-or-overwrite of the mutable columns.
pub open spec fn upsert_trade_mutation(s: Seq<Trade>, r: Trade) -> Seq<Trade> {
    let f = find_key(trades_keys(s), r.trade_obj_addr@);
    if f >= 0 {
        s.update(f, merge_trade(s[f], r))
    } else {
        s.push(r)
    }
}

pub open spec fn apply_trade_creates(s: Seq<Trade>, rows: Seq<Trade>) -> Seq<Trade>
    decreases rows.len(),
{
    if rows.len() == 0 {
        s
    } else {
        upsert_trade_create(apply_trade_creates(s, rows.drop_last()), rows.last())
    }
}

pub open spec fn apply_trade_mutations(s: Seq<Trade>, rows: Seq<Trade>) -> Seq<Trade>
    decreases rows.len(),
{
    if rows.len() == 0 {
        s
    } else {
        upsert_trade_mutation(apply_trade_mutations(s, rows.drop_last()), rows.last())
    }
}

/// Looks up a trade row by trade address.
pub fn find_trade_idx(table: &Vec<Trade>, key: &String) -> (r: Option<usize>)
    ensures
        match r {
            Some(i) => i == find_key(trades_keys(table@), key@),
            None => find_key(trades_keys(table@), key@) == -1,
        },
{
    let mut i: usize = 0;
    while i < table.len()
        invariant
            i <= table@.len(),
            forall|j: int| 0 <= j < i ==> trades_keys(table@)[j] != key@,
        decreases table@.len() - i,
    {
        if table[i].trade_obj_addr == *key {
            proof {
                lemma_find_key_at(trades_keys(table@), key@, i as int);
            }
            return Some(i);
        }
        i = i + 1;
    }
    proof {
        lemma_find_key_absent(trades_keys(table@), key@);
    }
    None
}

/// One create upsert against the trades table.
pub fn apply_one_trade_create(table: &mut Vec<Trade>, row: &Trade)
    ensures
        final(table)@ == upsert_trade_create(old(table)@, *row),
{
    match find_trade_idx(table, &row.trade_obj_addr) {
        Option::Some(_) => {},
        Option::None => {
            table.push(row.duplicate());
        },
    }
}

/// One mutation upsert against the trades table.
pub fn apply_one_trade_mutation(table: &mut Vec<Trade>, row: &Trade)
    ensures
        final(table)@ == upsert_trade_mutation(old(table)@, *row),
{
    match find_trade_idx(table, &row.trade_obj_addr) {
        Option::Some(i) => {
            proof {
                lemma_find_key_props(trades_keys(table@), row.trade_obj_addr@);
            }
            let merged = Trade {
                status: row.status,
                amount_from: row.amount_from,
                amount_to: row.amount_to,
                price: row.price,
                notes: row.notes.clone(),
                last_update_timestamp: row.last_update_timestamp,
                last_update_event_idx: row.last_update_event_idx,
                trade_obj_addr: table[i].trade_obj_addr.clone(),
                trader_addr: table[i].trader_addr.clone(),
                trade_type: table[i].trade_type,
                token_from: table[i].token_from.clone(),
                token_to: table[i].token_to.clone(),
                creation_timestamp: table[i].creation_timestamp,
            };
            table.set(i, merged);
        },
        Option::None => {
            table.push(row.duplicate());
        },
    }
}

// ---------------------------------------------------------------------------
// trader_stats
// ---------------------------------------------------------------------------

pub open spec fn stats_keys(s: Seq<TraderStat>) -> Seq<Seq<char>> {
    s.map_values(|t: TraderStat| t.trader_addr@)
}

/// Every additive column of the merge stays in `i64` range.
pub open spec fn stat_sums_fit(orig: TraderStat, d: TraderStat) -> bool {
    &&& i64::MIN <= orig.total_trades + d.total_trades <= i64::MAX
    &&& i64::MIN <= orig.completed_trades + d.completed_trades <= i64::MAX
    &&& i64::MIN <= orig.cancelled_trades + d.cancelled_trades <= i64::MAX
    &&& i64::MIN <= orig.total_buy_trades + d.total_buy_trades <= i64::MAX
    &&& i64::MIN <= orig.total_sell_trades + d.total_sell_trades <= i64::MAX
    &&& i64::MIN <= orig.total_swap_trades + d.total_swap_trades <= i64::MAX
    &&& i64::MIN <= orig.total_volume + d.total_volume <= i64::MAX
    &&& i64::MIN <= orig.points + d.points <= i64::MAX
}

/// The additive half of the trader_stats conflict rule: counters and points
/// merge additively, the last-update timestamp is overwritten, identity and
/// creation data stay.
pub open spec fn merge_trader_stat(orig: TraderStat, d: TraderStat) -> TraderStat {
    TraderStat {
        last_update_timestamp: d.last_update_timestamp,
        total_trades: (orig.total_trades + d.total_trades) as i64,
        completed_trades: (orig.completed_trades + d.completed_trades) as i64,
        cancelled_trades: (orig.cancelled_trades + d.cancelled_trades) as i64,
        total_buy_trades: (orig.total_buy_trades + d.total_buy_trades) as i64,
        total_sell_trades: (orig.total_sell_trades + d.total_sell_trades) as i64,
        total_swap_trades: (orig.total_swap_trades + d.total_swap_trades) as i64,
        total_volume: (orig.total_volume + d.total_volume) as i64,
        points: (orig.points + d.points) as i64,
        ..orig
    }
}

/// A delta can be applied against state `s` without leaving range.
pub open spec fn stat_delta_fits(s: Seq<TraderStat>, d: TraderStat) -> bool {
    let f = find_key(stats_keys(s), d.trader_addr@);
    f >= 0 ==> stat_sums_fit(s[f], d)
}

/// Every delta of the batch fits against the pre-batch state.
pub open spec fn stat_deltas_fit(s: Seq<TraderStat>, ds: Seq<TraderStat>) -> bool {
    forall|i: int| 0 <= i < ds.len() ==> stat_delta_fits(s, #[trigger] ds[i])
}

pub open spec fn upsert_trader_stat(s: Seq<TraderStat>, d: TraderStat) -> Seq<TraderStat> {
    let f = find_key(stats_keys(s), d.trader_addr@);
    if f >= 0 {
        s.update(f, merge_trader_stat(s[f], d))
    } else {
        s.push(d)
    }
}

pub open spec fn apply_stat_deltas(s: Seq<TraderStat>, ds: Seq<TraderStat>) -> Seq<TraderStat>
    decreases ds.len(),
{
    if ds.len() == 0 {
        s
    } else {
        upsert_trader_stat(apply_stat_deltas(s, ds.drop_last()), ds.last())
    }
}

/// Looks up a trader-stat row by trader address.
pub fn find_stat_idx(table: &Vec<TraderStat>, key: &String) -> (r: Option<usize>)
    ensures
        match r {
            Some(i) => i == find_key(stats_keys(table@), key@),
            None => find_key(stats_keys(table@), key@) == -1,
        },
{
    let mut i: usize = 0;
    while i < table.len()
        invariant
            i <= table@.len(),
            forall|j: int| 0 <= j < i ==> stats_keys(table@)[j] != key@,
        decreases table@.len() - i,
    {
        if table[i].trader_addr == *key {
            proof {
                lemma_find_key_at(stats_keys(table@), key@, i as int);
            }
            return Some(i);
        }
        i = i + 1;
    }
    proof {
        lemma_find_key_absent(stats_keys(table@), key@);
    }
    None
}

/// Whether one delta's merge stays in range.
pub fn check_stat_fits(orig: &TraderStat, d: &TraderStat) -> (b: bool)
    ensures
        b == stat_sums_fit(*orig, *d),
{
    let lo: i128 = i64::MIN as i128;
    let hi: i128 = i64::MAX as i128;
    (lo <= orig.total_trades as i128 + d.total_trades as i128 && orig.total_trades as i128
        + d.total_trades as i128 <= hi) && (lo <= orig.completed_trades as i128
        + d.completed_trades as i128 && orig.completed_trades as i128 + d.completed_trades as i128
        <= hi) && (lo <= orig.cancelled_trades as i128 + d.cancelled_trades as i128
        && orig.cancelled_trades as i128 + d.cancelled_trades as i128 <= hi) && (lo
        <= orig.total_buy_trades as i128 + d.total_buy_trades as i128
        && orig.total_buy_trades as i128 + d.total_buy_trades as i128 <= hi) && (lo
        <= orig.total_sell_trades as i128 + d.total_sell_trades as i128
        && orig.total_sell_trades as i128 + d.total_sell_trades as i128 <= hi) && (lo
        <= orig.total_swap_trades as i128 + d.total_swap_trades as i128
        && orig.total_swap_trades as i128 + d.total_swap_trades as i128 <= hi) && (lo
        <= orig.total_volume as i128 + d.total_volume as i128 && orig.total_volume as i128
        + d.total_volume as i128 <= hi) && (lo <= orig.points as i128 + d.points as i128
        && orig.points as i128 + d.points as i128 <= hi)
}

// ---------------------------------------------------------------------------
// hyperion_pools
// ---------------------------------------------------------------------------

pub open spec fn pools_keys(s: Seq<HyperionPool>) -> Seq<Seq<char>> {
    s.map_values(|p: HyperionPool| p.pool_address@)
}

/// Overwrite rule: the point-in-time state columns come from the incoming
/// row; identity, pair and creation data stay.
pub open spec fn merge_pool(orig: HyperionPool, upd: HyperionPool) -> HyperionPool {
    HyperionPool {
        liquidity: upd.liquidity,
        sqrt_price_x96: upd.sqrt_price_x96,
        tick: upd.tick,
        last_update_timestamp: upd.last_update_timestamp,
        last_update_version: upd.last_update_version,
        ..orig
    }
}

pub open spec fn upsert_pool(s: Seq<HyperionPool>, r: HyperionPool) -> Seq<HyperionPool> {
    let f = find_key(pools_keys(s), r.pool_address@);
    if f >= 0 {
        s.update(f, merge_pool(s[f], r))
    } else {
        s.push(r)
    }
}

pub open spec fn apply_pools(s: Seq<HyperionPool>, rows: Seq<HyperionPool>) -> Seq<HyperionPool>
    decreases rows.len(),
{
    if rows.len() == 0 {
        s
    } else {
        upsert_pool(apply_pools(s, rows.drop_last()), rows.last())
    }
}

/// Looks up a pool row by pool address.
pub fn find_pool_idx(table: &Vec<HyperionPool>, key: &String) -> (r: Option<usize>)
    ensures
        match r {
            Some(i) => i == find_key(pools_keys(table@), key@),
            None => find_key(pools_keys(table@), key@) == -1,
        },
{
    let mut i: usize = 0;
    while i < table.len()
        invariant
            i <= table@.len(),
            forall|j: int| 0 <= j < i ==> pools_keys(table@)[j] != key@,
        decreases table@.len() - i,
    {
        if table[i].pool_address == *key {
            proof {
                lemma_find_key_at(pools_keys(table@), key@, i as int);
            }
            return Some(i);
        }
        i = i + 1;
    }
    proof {
        lemma_find_key_absent(pools_keys(table@), key@);
    }
    None
}

/// One upsert against the hyperion_pools table.
pub fn apply_one_pool(table: &mut Vec<HyperionPool>, row: &HyperionPool)
    ensures
        final(table)@ == upsert_pool(old(table)@, *row),
{
    match find_pool_idx(table, &row.pool_address) {
        Option::Some(i) => {
            proof {
                lemma_find_key_props(pools_keys(table@), row.pool_address@);
            }
            let merged = HyperionPool {
                liquidity: row.liquidity.clone(),
                sqrt_price_x96: row.sqrt_price_x96.clone(),
                tick: row.tick,
                last_update_timestamp: row.last_update_timestamp,
                last_update_version: row.last_update_version,
                pool_address: table[i].pool_address.clone(),
                token0_address: table[i].token0_address.clone(),
                token1_address: table[i].token1_address.clone(),
                token0_symbol: table[i].token0_symbol.clone(),
                token1_symbol: table[i].token1_symbol.clone(),
                fee_tier: table[i].fee_tier,
                tick_spacing: table[i].tick_spacing,
                creation_timestamp: table[i].creation_timestamp,
            };
            table.set(i, merged);
        },
        Option::None => {
            table.push(row.duplicate());
        },
    }
}

// ---------------------------------------------------------------------------
// hyperion_swaps
// ---------------------------------------------------------------------------

pub open spec fn swaps_keys(s: Seq<HyperionSwap>) -> Seq<Seq<char>> {
    s.map_values(|w: HyperionSwap| w.swap_id@)
}

/// Insert-or-do-nothing: a replayed swap id is absorbed.
pub open spec fn upsert_swap(s: Seq<HyperionSwap>, r: HyperionSwap) -> Seq<HyperionSwap> {
    if find_key(swaps_keys(s), r.swap_id@) >= 0 {
        s
    } else {
        s.push(r)
    }
}

pub open spec fn apply_swaps(s: Seq<HyperionSwap>, rows: Seq<HyperionSwap>) -> Seq<HyperionSwap>
    decreases rows.len(),
{
    if rows.len() == 0 {
        s
    } else {
        upsert_swap(apply_swaps(s, rows.drop_last()), rows.last())
    }
}

/// Looks up a swap row by swap id.
pub fn find_swap_idx(table: &Vec<HyperionSwap>, key: &String) -> (r: Option<usize>)
    ensures
        match r {
            Some(i) => i == find_key(swaps_keys(table@), key@),
            None => find_key(swaps_keys(table@), key@) == -1,
        },
{
    let mut i: usize = 0;
    while i < table.len()
        invariant
            i <= table@.len(),
            forall|j: int| 0 <= j < i ==> swaps_keys(table@)[j] != key@,
        decreases table@.len() - i,
    {
        if table[i].swap_id == *key {
            proof {
                lemma_find_key_at(swaps_keys(table@), key@, i as int);
            }
            return Some(i);
        }
        i = i + 1;
    }
    proof {
        lemma_find_key_absent(swaps_keys(table@), key@);
    }
    None
}

/// One insert-or-do-nothing upsert against the hyperion_swaps table.
pub fn apply_one_swap(table: &mut Vec<HyperionSwap>, row: &HyperionSwap)
    ensures
        final(table)@ == upsert_swap(old(table)@, *row),
{
    match find_swap_idx(table, &row.swap_id) {
        Option::Some(_) => {},
        Option::None => {
            table.push(row.duplicate());
        },
    }
}

// ---------------------------------------------------------------------------
// hyperion_pool_stats (contracts over views: fresh rows are built at run
// time, so only their character content is determined)
// ---------------------------------------------------------------------------

pub open spec fn pool_stat_views(s: Seq<HyperionPoolStat>) -> Seq<crate::hyperion_pool_stat::PoolStatView> {
    s.map_values(|p: HyperionPoolStat| p@)
}

pub open spec fn pool_stat_keys(vs: Seq<crate::hyperion_pool_stat::PoolStatView>) -> Seq<
    Seq<char>,
> {
    vs.map_values(|v: crate::hyperion_pool_stat::PoolStatView| v.pool_address)
}

/// Overwrite rule: the batch snapshot columns come from the incoming row; the
/// rest stays.
pub open spec fn merge_pool_stat(
    orig: crate::hyperion_pool_stat::PoolStatView,
    upd: crate::hyperion_pool_stat::PoolStatView,
) -> crate::hyperion_pool_stat::PoolStatView {
    crate::hyperion_pool_stat::PoolStatView {
        volume_24h: upd.volume_24h,
        fees_24h: upd.fees_24h,
        swap_count_24h: upd.swap_count_24h,
        last_price: upd.last_price,
        last_update_timestamp: upd.last_update_timestamp,
        ..orig
    }
}

pub open spec fn upsert_pool_stat(
    vs: Seq<crate::hyperion_pool_stat::PoolStatView>,
    r: crate::hyperion_pool_stat::PoolStatView,
) -> Seq<crate::hyperion_pool_stat::PoolStatView> {
    let f = find_key(pool_stat_keys(vs), r.pool_address);
    if f >= 0 {
        vs.update(f, merge_pool_stat(vs[f], r))
    } else {
        vs.push(r)
    }
}

pub open spec fn apply_pool_stats(
    vs: Seq<crate::hyperion_pool_stat::PoolStatView>,
    rows: Seq<crate::hyperion_pool_stat::PoolStatView>,
) -> Seq<crate::hyperion_pool_stat::PoolStatView>
    decreases rows.len(),
{
    if rows.len() == 0 {
        vs
    } else {
        upsert_pool_stat(apply_pool_stats(vs, rows.drop_last()), rows.last())
    }
}

/// Looks up a pool-stat row by pool address.
pub fn find_pool_stat_idx(table: &Vec<HyperionPoolStat>, key: &String) -> (r: Option<usize>)
    ensures
        match r {
            Some(i) => i == find_key(pool_stat_keys(pool_stat_views(table@)), key@),
            None => find_key(pool_stat_keys(pool_stat_views(table@)), key@) == -1,
        },
{
    let mut i: usize = 0;
    while i < table.len()
        invariant
            i <= table@.len(),
            forall|j: int| 0 <= j < i ==> pool_stat_keys(pool_stat_views(table@))[j] != key@,
        decreases table@.len() - i,
    {
        if table[i].pool_address == *key {
            proof {
                lemma_find_key_at(pool_stat_keys(pool_stat_views(table@)), key@, i as int);
            }
            return Some(i);
        }
        i = i + 1;
    }
    proof {
        lemma_find_key_absent(pool_stat_keys(pool_stat_views(table@)), key@);
    }
    None
}

/// One upsert against the hyperion_pool_stats table.
pub fn apply_one_pool_stat(table: &mut Vec<HyperionPoolStat>, row: &HyperionPoolStat)
    ensures
        pool_stat_views(final(table)@) == upsert_pool_stat(pool_stat_views(old(table)@), row@),
{
    match find_pool_stat_idx(table, &row.pool_address) {
        Option::Some(i) => {
            proof {
                lemma_find_key_props(pool_stat_keys(pool_stat_views(table@)), row.pool_address@);
            }
            let merged = HyperionPoolStat {
                volume_24h: row.volume_24h.clone(),
                fees_24h: row.fees_24h.clone(),
                swap_count_24h: row.swap_count_24h,
                last_price: row.last_price.clone(),
                last_update_timestamp: row.last_update_timestamp,
                pool_address: table[i].pool_address.clone(),
                tvl_usd: table[i].tvl_usd.clone(),
                volume_7d: table[i].volume_7d.clone(),
                fees_7d: table[i].fees_7d.clone(),
                apr: table[i].apr.clone(),
                swap_count_7d: table[i].swap_count_7d,
                unique_traders_24h: table[i].unique_traders_24h,
                unique_traders_7d: table[i].unique_traders_7d,
                price_change_24h: table[i].price_change_24h.clone(),
            };
            table.set(i, merged);
            proof {
                assert(pool_stat_views(table@) =~= upsert_pool_stat(
                    pool_stat_views(old(table)@),
                    row@,
                ));
            }
        },
        Option::None => {
            table.push(row.duplicate());
            proof {
                assert(pool_stat_views(table@) =~= pool_stat_views(old(table)@).push(row@));
            }
        },
    }
}

/// Pushing a different key does not change where `k` is found.
pub proof fn lemma_find_key_push(keys: Seq<Seq<char>>, x: Seq<char>, k: Seq<char>)
    requires
        k != x,
    ensures
        find_key(keys.push(x), k) == find_key(keys, k),
    decreases keys.len(),
{
    if keys.len() == 0 {
        assert(keys.push(x)[0] == x);
        assert(keys.push(x).skip(1) =~= Seq::<Seq<char>>::empty());
        assert(find_key(Seq::<Seq<char>>::empty(), k) == -1);
        assert(find_key(keys, k) == -1);
        assert(find_key(keys.push(x), k) == -1);
    } else {
        assert(keys.push(x)[0] == keys[0]);
        if keys[0] != k {
            assert(keys.push(x).skip(1) =~= keys.skip(1).push(x));
            lemma_find_key_push(keys.skip(1), x, k);
        }
    }
}

/// Key `k` is present in `s1` exactly as in `s2`: same absence, or the same
/// row value behind it.
pub open spec fn stat_key_state_eq(s1: Seq<TraderStat>, s2: Seq<TraderStat>, k: Seq<char>)
    -> bool {
    let f1 = find_key(stats_keys(s1), k);
    let f2 = find_key(stats_keys(s2), k);
    &&& (f1 == -1 <==> f2 == -1)
    &&& (f1 >= 0 ==> f2 >= 0 && s2[f2] == s1[f1])
}

/// Applying a delta leaves every other key's state alone.
pub proof fn lemma_upsert_stat_other_key(s: Seq<TraderStat>, d: TraderStat, k: Seq<char>)
    requires
        k != d.trader_addr@,
    ensures
        stat_key_state_eq(s, upsert_trader_stat(s, d), k),
{
    let keys = stats_keys(s);
    lemma_find_key_props(keys, d.trader_addr@);
    lemma_find_key_props(keys, k);
    let f = find_key(keys, d.trader_addr@);
    if f >= 0 {
        let s2 = s.update(f, merge_trader_stat(s[f], d));
        assert(stats_keys(s2) =~= keys);
        let fk = find_key(keys, k);
        if fk >= 0 {
            assert(keys[fk] == k);
            assert(keys[f] == d.trader_addr@);
            assert(fk != f);
            assert(s2[fk] == s[fk]);
        }
    } else {
        let s2 = s.push(d);
        assert(stats_keys(s2) =~= keys.push(d.trader_addr@));
        lemma_find_key_push(keys, d.trader_addr@, k);
        let fk = find_key(keys, k);
        if fk >= 0 {
            assert(s2[fk] == s[fk]);
        }
    }
}

/// Applies a batch of per-trader deltas as one transaction: either every
/// delta merges in range and the table moves to the merged state, or nothing
/// changes at all.
pub fn apply_stat_deltas_exec(table: &mut Vec<TraderStat>, deltas: &Vec<TraderStat>) -> (ok: bool)
    requires
        distinct_keys(stats_keys(deltas@)),
    ensures
        ok == stat_deltas_fit(old(table)@, deltas@),
        ok ==> final(table)@ == apply_stat_deltas(old(table)@, deltas@),
        !ok ==> final(table)@ == old(table)@,
{
    let ghost ds = deltas@;
    let mut j: usize = 0;
    while j < deltas.len()
        invariant
            j <= ds.len(),
            ds == deltas@,
            table@ == old(table)@,
            forall|i: int| 0 <= i < j ==> stat_delta_fits(table@, #[trigger] ds[i]),
        decreases ds.len() - j,
    {
        match find_stat_idx(table, &deltas[j].trader_addr) {
            Option::Some(i) => {
                proof {
                    lemma_find_key_props(stats_keys(table@), ds[j as int].trader_addr@);
                }
                if !check_stat_fits(&table[i], &deltas[j]) {
                    proof {
                        assert(!stat_delta_fits(table@, ds[j as int]));
                    }
                    return false;
                }
            },
            Option::None => {},
        }
        j = j + 1;
    }
    let mut k: usize = 0;
    while k < deltas.len()
        invariant
            k <= ds.len(),
            ds == deltas@,
            distinct_keys(stats_keys(ds)),
            table@ == apply_stat_deltas(old(table)@, ds.take(k as int)),
            forall|i: int| 0 <= i < ds.len() ==> stat_delta_fits(old(table)@, #[trigger] ds[i]),
            forall|i: int|
                k <= i < ds.len() ==> stat_key_state_eq(
                    old(table)@,
                    table@,
                    (#[trigger] ds[i]).trader_addr@,
                ),
        decreases ds.len() - k,
    {
        let ghost before = table@;
        let d = &deltas[k];
        proof {
            assert(stat_key_state_eq(old(table)@, before, ds[k as int].trader_addr@));
            lemma_find_key_props(stats_keys(old(table)@), ds[k as int].trader_addr@);
            lemma_find_key_props(stats_keys(before), ds[k as int].trader_addr@);
        }
        match find_stat_idx(table, &d.trader_addr) {
            Option::Some(i) => {
                proof {
                    assert(stat_sums_fit(before[i as int], ds[k as int]));
                }
                let merged = TraderStat {
                    trader_addr: table[i].trader_addr.clone(),
                    creation_timestamp: table[i].creation_timestamp,
                    last_update_timestamp: d.last_update_timestamp,
                    total_trades: table[i].total_trades + d.total_trades,
                    completed_trades: table[i].completed_trades + d.completed_trades,
                    cancelled_trades: table[i].cancelled_trades + d.cancelled_trades,
                    total_buy_trades: table[i].total_buy_trades + d.total_buy_trades,
                    total_sell_trades: table[i].total_sell_trades + d.total_sell_trades,
                    total_swap_trades: table[i].total_swap_trades + d.total_swap_trades,
                    total_volume: table[i].total_volume + d.total_volume,
                    points: table[i].points + d.points,
                };
                table.set(i, merged);
            },
            Option::None => {
                table.push(d.duplicate());
            },
        }
        proof {
            assert(table@ == upsert_trader_stat(before, ds[k as int]));
            assert(ds.take(k + 1).drop_last() =~= ds.take(k as int));
            assert(ds.take(k + 1).last() == ds[k as int]);
            assert(table@ == apply_stat_deltas(old(table)@, ds.take(k + 1)));
            assert forall|i: int| k + 1 <= i < ds.len() implies stat_key_state_eq(
                old(table)@,
                table@,
                (#[trigger] ds[i]).trader_addr@,
            ) by {
                assert(stats_keys(ds)[i] == ds[i].trader_addr@);
                assert(stats_keys(ds)[k as int] == ds[k as int].trader_addr@);
                assert(ds[i].trader_addr@ != ds[k as int].trader_addr@);
                lemma_upsert_stat_other_key(before, ds[k as int], ds[i].trader_addr@);
            }
        }
        k = k + 1;
    }
    proof {
        assert(ds.take(ds.len() as int) =~= ds);
    }
    true
}

} // verus!
