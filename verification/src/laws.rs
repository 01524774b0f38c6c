//! The store's replay and uniqueness laws.
//!
//! At-least-once delivery means a whole batch can be applied twice. These
//! proofs state when that is harmless: every insert-or-do-nothing table and
//! every overwrite table converges to the same state on replay. The additive
//! trader_stats merge is the deliberate exception: replaying a batch whose
//! delta set is non-empty adds the deltas again, which is why the pipeline
//! never re-delivers a batch below the recorded checkpoint except after a
//! crash, and why such a replay is confined to the window since the last
//! checkpoint.

use vstd::prelude::*;
use crate::hyperion_pool::HyperionPool;
use crate::hyperion_pool_stat::PoolStatView;
use crate::hyperion_swap::HyperionSwap;
use crate::store::{
    apply_pool_stats, apply_pools, apply_swaps, apply_trade_creates, apply_trade_mutations,
    distinct_keys, find_key, lemma_find_key_props, lemma_find_key_push, merge_pool,
    merge_pool_stat, merge_trade, pool_stat_keys, pools_keys, swaps_keys, trades_keys,
    upsert_pool, upsert_pool_stat, upsert_swap, upsert_trade_create, upsert_trade_mutation,
};
use crate::trade::Trade;

verus! {

// ---------------------------------------------------------------------------
// Insert-or-do-nothing tables: replay is literally a no-op.
// ---------------------------------------------------------------------------

pub open spec fn has_trade_key(s: Seq<Trade>, k: Seq<char>) -> bool {
    find_key(trades_keys(s), k) >= 0
}

/// A create upsert never removes a key.
pub proof fn lemma_upsert_create_preserves(s: Seq<Trade>, r: Trade, k: Seq<char>)
    requires
        has_trade_key(s, k),
    ensures
        has_trade_key(upsert_trade_create(s, r), k),
{
    lemma_find_key_props(trades_keys(s), r.trade_obj_addr@);
    if find_key(trades_keys(s), r.trade_obj_addr@) < 0 {
        let s2 = s.push(r);
        assert(trades_keys(s2) =~= trades_keys(s).push(r.trade_obj_addr@));
        if k != r.trade_obj_addr@ {
            lemma_find_key_push(trades_keys(s), r.trade_obj_addr@, k);
        } else {
            lemma_find_key_props(trades_keys(s), k);
        }
    }
}

/// After a batch of creates, every row key of the batch is present.
pub proof fn lemma_creates_all_present(s: Seq<Trade>, rows: Seq<Trade>)
    ensures
        forall|i: int|
            0 <= i < rows.len() ==> has_trade_key(
                apply_trade_creates(s, rows),
                (#[trigger] rows[i]).trade_obj_addr@,
            ),
    decreases rows.len(),
{
    if rows.len() > 0 {
        let prev = apply_trade_creates(s, rows.drop_last());
        lemma_creates_all_present(s, rows.drop_last());
        let r = rows.last();
        lemma_find_key_props(trades_keys(prev), r.trade_obj_addr@);
        if find_key(trades_keys(prev), r.trade_obj_addr@) < 0 {
            assert(trades_keys(prev.push(r)) =~= trades_keys(prev).push(r.trade_obj_addr@));
            lemma_find_key_props(trades_keys(prev).push(r.trade_obj_addr@), r.trade_obj_addr@);
            assert(trades_keys(prev).push(r.trade_obj_addr@)[trades_keys(prev).len() as int]
                == r.trade_obj_addr@);
            if find_key(trades_keys(prev).push(r.trade_obj_addr@), r.trade_obj_addr@) == -1 {
                assert(false);
            }
        }
        assert forall|i: int| 0 <= i < rows.len() implies has_trade_key(
            apply_trade_creates(s, rows),
            (#[trigger] rows[i]).trade_obj_addr@,
        ) by {
            if i < rows.len() - 1 {
                assert(rows.drop_last()[i] == rows[i]);
                lemma_upsert_create_preserves(prev, r, rows[i].trade_obj_addr@);
            }
        }
    }
}

/// Creates applied to a state that already holds all their keys change
/// nothing.
pub proof fn lemma_creates_noop(t: Seq<Trade>, rows: Seq<Trade>)
    requires
        forall|i: int|
            0 <= i < rows.len() ==> has_trade_key(t, (#[trigger] rows[i]).trade_obj_addr@),
    ensures
        apply_trade_creates(t, rows) == t,
    decreases rows.len(),
{
    if rows.len() > 0 {
        assert(forall|i: int|
            0 <= i < rows.drop_last().len() ==> has_trade_key(
                t,
                (#[trigger] rows.drop_last()[i]).trade_obj_addr@,
            ));
        lemma_creates_noop(t, rows.drop_last());
        assert(rows.last() == rows[rows.len() - 1]);
    }
}

/// Idempotent replay for trade creates: applying the same create batch twice
/// yields exactly the state of applying it once.
pub proof fn lemma_trade_creates_replay(s: Seq<Trade>, rows: Seq<Trade>)
    ensures
        apply_trade_creates(apply_trade_creates(s, rows), rows) == apply_trade_creates(s, rows),
{
    lemma_creates_all_present(s, rows);
    lemma_creates_noop(apply_trade_creates(s, rows), rows);
}

pub open spec fn has_swap_key(s: Seq<HyperionSwap>, k: Seq<char>) -> bool {
    find_key(swaps_keys(s), k) >= 0
}

pub proof fn lemma_upsert_swap_preserves(s: Seq<HyperionSwap>, r: HyperionSwap, k: Seq<char>)
    requires
        has_swap_key(s, k),
    ensures
        has_swap_key(upsert_swap(s, r), k),
{
    lemma_find_key_props(swaps_keys(s), r.swap_id@);
    if find_key(swaps_keys(s), r.swap_id@) < 0 {
        let s2 = s.push(r);
        assert(swaps_keys(s2) =~= swaps_keys(s).push(r.swap_id@));
        if k != r.swap_id@ {
            lemma_find_key_push(swaps_keys(s), r.swap_id@, k);
        } else {
            lemma_find_key_props(swaps_keys(s), k);
        }
    }
}

pub proof fn lemma_swaps_all_present(s: Seq<HyperionSwap>, rows: Seq<HyperionSwap>)
    ensures
        forall|i: int|
            0 <= i < rows.len() ==> has_swap_key(
                apply_swaps(s, rows),
                (#[trigger] rows[i]).swap_id@,
            ),
    decreases rows.len(),
{
    if rows.len() > 0 {
        let prev = apply_swaps(s, rows.drop_last());
        lemma_swaps_all_present(s, rows.drop_last());
        let r = rows.last();
        lemma_find_key_props(swaps_keys(prev), r.swap_id@);
        if find_key(swaps_keys(prev), r.swap_id@) < 0 {
            assert(swaps_keys(prev.push(r)) =~= swaps_keys(prev).push(r.swap_id@));
            lemma_find_key_props(swaps_keys(prev).push(r.swap_id@), r.swap_id@);
            assert(swaps_keys(prev).push(r.swap_id@)[swaps_keys(prev).len() as int] == r.swap_id@);
            if find_key(swaps_keys(prev).push(r.swap_id@), r.swap_id@) == -1 {
                assert(false);
            }
        }
        assert forall|i: int| 0 <= i < rows.len() implies has_swap_key(
            apply_swaps(s, rows),
            (#[trigger] rows[i]).swap_id@,
        ) by {
            if i < rows.len() - 1 {
                assert(rows.drop_last()[i] == rows[i]);
                lemma_upsert_swap_preserves(prev, r, rows[i].swap_id@);
            }
        }
    }
}

pub proof fn lemma_swaps_noop(t: Seq<HyperionSwap>, rows: Seq<HyperionSwap>)
    requires
        forall|i: int| 0 <= i < rows.len() ==> has_swap_key(t, (#[trigger] rows[i]).swap_id@),
    ensures
        apply_swaps(t, rows) == t,
    decreases rows.len(),
{
    if rows.len() > 0 {
        assert(forall|i: int|
            0 <= i < rows.drop_last().len() ==> has_swap_key(
                t,
                (#[trigger] rows.drop_last()[i]).swap_id@,
            ));
        lemma_swaps_noop(t, rows.drop_last());
        assert(rows.last() == rows[rows.len() - 1]);
    }
}

/// Idempotent replay for swaps: the composite id makes a re-delivered swap a
/// no-op, so applying the same swap batch twice equals applying it once.
pub proof fn lemma_swaps_replay(s: Seq<HyperionSwap>, rows: Seq<HyperionSwap>)
    ensures
        apply_swaps(apply_swaps(s, rows), rows) == apply_swaps(s, rows),
{
    lemma_swaps_all_present(s, rows);
    lemma_swaps_noop(apply_swaps(s, rows), rows);
}

// ---------------------------------------------------------------------------
// Overwrite tables: replay converges because overwriting twice with the same
// row is overwriting once.
// ---------------------------------------------------------------------------

/// The trade row a key maps to is merged with `r` and stays merged: merging
/// `r` again changes nothing.
pub open spec fn trade_row_settled(t: Seq<Trade>, r: Trade) -> bool {
    let f = find_key(trades_keys(t), r.trade_obj_addr@);
    f >= 0 && merge_trade(t[f], r) == t[f]
}

pub proof fn lemma_upsert_mut_other_key(s: Seq<Trade>, r: Trade, k: Seq<char>)
    requires
        k != r.trade_obj_addr@,
    ensures
        find_key(trades_keys(upsert_trade_mutation(s, r)), k) == find_key(trades_keys(s), k),
        find_key(trades_keys(s), k) >= 0 ==> upsert_trade_mutation(s, r)[find_key(
            trades_keys(s),
            k,
        )] == s[find_key(trades_keys(s), k)],
{
    let keys = trades_keys(s);
    lemma_find_key_props(keys, r.trade_obj_addr@);
    lemma_find_key_props(keys, k);
    let f = find_key(keys, r.trade_obj_addr@);
    if f >= 0 {
        let s2 = s.update(f, merge_trade(s[f], r));
        assert(trades_keys(s2) =~= keys);
        if find_key(keys, k) >= 0 {
            assert(keys[find_key(keys, k)] == k);
            assert(find_key(keys, k) != f);
        }
    } else {
        let s2 = s.push(r);
        assert(trades_keys(s2) =~= keys.push(r.trade_obj_addr@));
        lemma_find_key_push(keys, r.trade_obj_addr@, k);
    }
}

/// After a mutation batch with pairwise-distinct keys, every batch row is
/// settled in the result.
pub proof fn lemma_mutations_settle(s: Seq<Trade>, rows: Seq<Trade>)
    requires
        distinct_keys(trades_keys(rows)),
    ensures
        forall|i: int|
            0 <= i < rows.len() ==> trade_row_settled(
                apply_trade_mutations(s, rows),
                #[trigger] rows[i],
            ),
    decreases rows.len(),
{
    if rows.len() > 0 {
        let prev = apply_trade_mutations(s, rows.drop_last());
        assert forall|i: int, j: int|
            0 <= i < j < rows.drop_last().len() implies trades_keys(rows.drop_last())[i]
            != trades_keys(rows.drop_last())[j] by {
            assert(trades_keys(rows.drop_last())[i] == trades_keys(rows)[i]);
            assert(trades_keys(rows.drop_last())[j] == trades_keys(rows)[j]);
        }
        assert(distinct_keys(trades_keys(rows.drop_last())));
        lemma_mutations_settle(s, rows.drop_last());
        let r = rows.last();
        let cur = upsert_trade_mutation(prev, r);
        lemma_find_key_props(trades_keys(prev), r.trade_obj_addr@);
        let f = find_key(trades_keys(prev), r.trade_obj_addr@);
        if f >= 0 {
            let merged = merge_trade(prev[f], r);
            assert(trades_keys(cur) =~= trades_keys(prev));
            assert(cur[f] == merged);
            assert(merge_trade(merged, r) == merged);
            assert(trade_row_settled(cur, r));
        } else {
            assert(trades_keys(cur) =~= trades_keys(prev).push(r.trade_obj_addr@));
            lemma_find_key_props(trades_keys(cur), r.trade_obj_addr@);
            assert(trades_keys(cur)[trades_keys(prev).len() as int] == r.trade_obj_addr@);
            if find_key(trades_keys(cur), r.trade_obj_addr@) == -1 {
                assert(false);
            }
            let fc = find_key(trades_keys(cur), r.trade_obj_addr@);
            if fc < prev.len() {
                assert(trades_keys(prev)[fc] == trades_keys(cur)[fc]);
                assert(false);
            }
            assert(cur[fc] == r);
            assert(merge_trade(r, r) == r);
            assert(trade_row_settled(cur, r));
        }
        assert forall|i: int| 0 <= i < rows.len() implies trade_row_settled(
            cur,
            #[trigger] rows[i],
        ) by {
            if i < rows.len() - 1 {
                assert(rows.drop_last()[i] == rows[i]);
                assert(trades_keys(rows)[i] == rows[i].trade_obj_addr@);
                assert(trades_keys(rows)[rows.len() - 1] == r.trade_obj_addr@);
                assert(rows[i].trade_obj_addr@ != r.trade_obj_addr@);
                lemma_upsert_mut_other_key(prev, r, rows[i].trade_obj_addr@);
                assert(trade_row_settled(prev, rows[i]));
            }
        }
    }
}

/// Mutations applied to a state where every batch row is already settled
/// change nothing.
pub proof fn lemma_mutations_noop(t: Seq<Trade>, rows: Seq<Trade>)
    requires
        forall|i: int| 0 <= i < rows.len() ==> trade_row_settled(t, #[trigger] rows[i]),
    ensures
        apply_trade_mutations(t, rows) == t,
    decreases rows.len(),
{
    if rows.len() > 0 {
        assert(forall|i: int|
            0 <= i < rows.drop_last().len() ==> trade_row_settled(t, #[trigger] rows.drop_last()[i]));
        lemma_mutations_noop(t, rows.drop_last());
        let r = rows.last();
        assert(trade_row_settled(t, rows[rows.len() - 1]));
        lemma_find_key_props(trades_keys(t), r.trade_obj_addr@);
        let f = find_key(trades_keys(t), r.trade_obj_addr@);
        assert(0 <= f < t.len());
        assert(upsert_trade_mutation(t, r) == t.update(f, merge_trade(t[f], r)));
        assert(t.update(f, merge_trade(t[f], r)) =~= t);
    }
}

/// Idempotent replay for trade mutations: for a batch whose rows touch
/// pairwise-distinct trade addresses, applying it twice yields exactly the
/// state of applying it once.
pub proof fn lemma_trade_mutations_replay(s: Seq<Trade>, rows: Seq<Trade>)
    requires
        distinct_keys(trades_keys(rows)),
    ensures
        apply_trade_mutations(apply_trade_mutations(s, rows), rows) == apply_trade_mutations(
            s,
            rows,
        ),
{
    lemma_mutations_settle(s, rows);
    lemma_mutations_noop(apply_trade_mutations(s, rows), rows);
}


/// The pool row a key maps to stays as `r` left it.
pub open spec fn pool_row_settled(t: Seq<HyperionPool>, r: HyperionPool) -> bool {
    let f = find_key(pools_keys(t), r.pool_address@);
    f >= 0 && merge_pool(t[f], r) == t[f]
}

pub proof fn lemma_upsert_pool_other_key(s: Seq<HyperionPool>, r: HyperionPool, k: Seq<char>)
    requires
        k != r.pool_address@,
    ensures
        find_key(pools_keys(upsert_pool(s, r)), k) == find_key(pools_keys(s), k),
        find_key(pools_keys(s), k) >= 0 ==> upsert_pool(s, r)[find_key(pools_keys(s), k)]
            == s[find_key(pools_keys(s), k)],
{
    let keys = pools_keys(s);
    lemma_find_key_props(keys, r.pool_address@);
    lemma_find_key_props(keys, k);
    let f = find_key(keys, r.pool_address@);
    if f >= 0 {
        let s2 = s.update(f, merge_pool(s[f], r));
        assert(pools_keys(s2) =~= keys);
        if find_key(keys, k) >= 0 {
            assert(keys[find_key(keys, k)] == k);
            assert(find_key(keys, k) != f);
        }
    } else {
        let s2 = s.push(r);
        assert(pools_keys(s2) =~= keys.push(r.pool_address@));
        lemma_find_key_push(keys, r.pool_address@, k);
    }
}

pub proof fn lemma_pools_settle(s: Seq<HyperionPool>, rows: Seq<HyperionPool>)
    requires
        distinct_keys(pools_keys(rows)),
    ensures
        forall|i: int|
            0 <= i < rows.len() ==> pool_row_settled(apply_pools(s, rows), #[trigger] rows[i]),
    decreases rows.len(),
{
    if rows.len() > 0 {
        let prev = apply_pools(s, rows.drop_last());
        assert forall|i: int, j: int|
            0 <= i < j < rows.drop_last().len() implies pools_keys(rows.drop_last())[i]
            != pools_keys(rows.drop_last())[j] by {
            assert(pools_keys(rows.drop_last())[i] == pools_keys(rows)[i]);
            assert(pools_keys(rows.drop_last())[j] == pools_keys(rows)[j]);
        }
        assert(distinct_keys(pools_keys(rows.drop_last())));
        lemma_pools_settle(s, rows.drop_last());
        let r = rows.last();
        let cur = upsert_pool(prev, r);
        lemma_find_key_props(pools_keys(prev), r.pool_address@);
        let f = find_key(pools_keys(prev), r.pool_address@);
        if f >= 0 {
            let merged = merge_pool(prev[f], r);
            assert(pools_keys(cur) =~= pools_keys(prev));
            assert(cur[f] == merged);
            assert(merge_pool(merged, r) == merged);
            assert(pool_row_settled(cur, r));
        } else {
            assert(pools_keys(cur) =~= pools_keys(prev).push(r.pool_address@));
            lemma_find_key_props(pools_keys(cur), r.pool_address@);
            assert(pools_keys(cur)[pools_keys(prev).len() as int] == r.pool_address@);
            if find_key(pools_keys(cur), r.pool_address@) == -1 {
                assert(false);
            }
            let fc = find_key(pools_keys(cur), r.pool_address@);
            if fc < prev.len() {
                assert(pools_keys(prev)[fc] == pools_keys(cur)[fc]);
                assert(false);
            }
            assert(cur[fc] == r);
            assert(merge_pool(r, r) == r);
            assert(pool_row_settled(cur, r));
        }
        assert forall|i: int| 0 <= i < rows.len() implies pool_row_settled(
            cur,
            #[trigger] rows[i],
        ) by {
            if i < rows.len() - 1 {
                assert(rows.drop_last()[i] == rows[i]);
                assert(pools_keys(rows)[i] == rows[i].pool_address@);
                assert(pools_keys(rows)[rows.len() - 1] == r.pool_address@);
                assert(rows[i].pool_address@ != r.pool_address@);
                lemma_upsert_pool_other_key(prev, r, rows[i].pool_address@);
                assert(pool_row_settled(prev, rows[i]));
            }
        }
    }
}

pub proof fn lemma_pools_noop(t: Seq<HyperionPool>, rows: Seq<HyperionPool>)
    requires
        forall|i: int| 0 <= i < rows.len() ==> pool_row_settled(t, #[trigger] rows[i]),
    ensures
        apply_pools(t, rows) == t,
    decreases rows.len(),
{
    if rows.len() > 0 {
        assert(forall|i: int|
            0 <= i < rows.drop_last().len() ==> pool_row_settled(t, #[trigger] rows.drop_last()[i]));
        lemma_pools_noop(t, rows.drop_last());
        let r = rows.last();
        assert(pool_row_settled(t, rows[rows.len() - 1]));
        lemma_find_key_props(pools_keys(t), r.pool_address@);
        let f = find_key(pools_keys(t), r.pool_address@);
        assert(0 <= f < t.len());
        assert(upsert_pool(t, r) == t.update(f, merge_pool(t[f], r)));
        assert(t.update(f, merge_pool(t[f], r)) =~= t);
    }
}

/// Idempotent replay for pool state: overwriting twice with the same
/// snapshot is overwriting once.
pub proof fn lemma_pools_replay(s: Seq<HyperionPool>, rows: Seq<HyperionPool>)
    requires
        distinct_keys(pools_keys(rows)),
    ensures
        apply_pools(apply_pools(s, rows), rows) == apply_pools(s, rows),
{
    lemma_pools_settle(s, rows);
    lemma_pools_noop(apply_pools(s, rows), rows);
}

/// The pool-stat row a key maps to stays as `r` left it.
pub open spec fn pool_stat_row_settled(t: Seq<PoolStatView>, r: PoolStatView) -> bool {
    let f = find_key(pool_stat_keys(t), r.pool_address);
    f >= 0 && merge_pool_stat(t[f], r) == t[f]
}

pub proof fn lemma_upsert_pool_stat_other_key(s: Seq<PoolStatView>, r: PoolStatView, k: Seq<char>)
    requires
        k != r.pool_address,
    ensures
        find_key(pool_stat_keys(upsert_pool_stat(s, r)), k) == find_key(pool_stat_keys(s), k),
        find_key(pool_stat_keys(s), k) >= 0 ==> upsert_pool_stat(s, r)[find_key(
            pool_stat_keys(s),
            k,
        )] == s[find_key(pool_stat_keys(s), k)],
{
    let keys = pool_stat_keys(s);
    lemma_find_key_props(keys, r.pool_address);
    lemma_find_key_props(keys, k);
    let f = find_key(keys, r.pool_address);
    if f >= 0 {
        let s2 = s.update(f, merge_pool_stat(s[f], r));
        assert(pool_stat_keys(s2) =~= keys);
        if find_key(keys, k) >= 0 {
            assert(keys[find_key(keys, k)] == k);
            assert(find_key(keys, k) != f);
        }
    } else {
        let s2 = s.push(r);
        assert(pool_stat_keys(s2) =~= keys.push(r.pool_address));
        lemma_find_key_push(keys, r.pool_address, k);
    }
}

pub proof fn lemma_pool_stats_settle(s: Seq<PoolStatView>, rows: Seq<PoolStatView>)
    requires
        distinct_keys(pool_stat_keys(rows)),
    ensures
        forall|i: int|
            0 <= i < rows.len() ==> pool_stat_row_settled(
                apply_pool_stats(s, rows),
                #[trigger] rows[i],
            ),
    decreases rows.len(),
{
    if rows.len() > 0 {
        let prev = apply_pool_stats(s, rows.drop_last());
        assert forall|i: int, j: int|
            0 <= i < j < rows.drop_last().len() implies pool_stat_keys(rows.drop_last())[i]
            != pool_stat_keys(rows.drop_last())[j] by {
            assert(pool_stat_keys(rows.drop_last())[i] == pool_stat_keys(rows)[i]);
            assert(pool_stat_keys(rows.drop_last())[j] == pool_stat_keys(rows)[j]);
        }
        assert(distinct_keys(pool_stat_keys(rows.drop_last())));
        lemma_pool_stats_settle(s, rows.drop_last());
        let r = rows.last();
        let cur = upsert_pool_stat(prev, r);
        lemma_find_key_props(pool_stat_keys(prev), r.pool_address);
        let f = find_key(pool_stat_keys(prev), r.pool_address);
        if f >= 0 {
            let merged = merge_pool_stat(prev[f], r);
            assert(pool_stat_keys(cur) =~= pool_stat_keys(prev));
            assert(cur[f] == merged);
            assert(merge_pool_stat(merged, r) == merged);
            assert(pool_stat_row_settled(cur, r));
        } else {
            assert(pool_stat_keys(cur) =~= pool_stat_keys(prev).push(r.pool_address));
            lemma_find_key_props(pool_stat_keys(cur), r.pool_address);
            assert(pool_stat_keys(cur)[pool_stat_keys(prev).len() as int] == r.pool_address);
            if find_key(pool_stat_keys(cur), r.pool_address) == -1 {
                assert(false);
            }
            let fc = find_key(pool_stat_keys(cur), r.pool_address);
            if fc < prev.len() {
                assert(pool_stat_keys(prev)[fc] == pool_stat_keys(cur)[fc]);
                assert(false);
            }
            assert(cur[fc] == r);
            assert(merge_pool_stat(r, r) == r);
            assert(pool_stat_row_settled(cur, r));
        }
        assert forall|i: int| 0 <= i < rows.len() implies pool_stat_row_settled(
            cur,
            #[trigger] rows[i],
        ) by {
            if i < rows.len() - 1 {
                assert(rows.drop_last()[i] == rows[i]);
                assert(pool_stat_keys(rows)[i] == rows[i].pool_address);
                assert(pool_stat_keys(rows)[rows.len() - 1] == r.pool_address);
                assert(rows[i].pool_address != r.pool_address);
                lemma_upsert_pool_stat_other_key(prev, r, rows[i].pool_address);
                assert(pool_stat_row_settled(prev, rows[i]));
            }
        }
    }
}

pub proof fn lemma_pool_stats_noop(t: Seq<PoolStatView>, rows: Seq<PoolStatView>)
    requires
        forall|i: int| 0 <= i < rows.len() ==> pool_stat_row_settled(t, #[trigger] rows[i]),
    ensures
        apply_pool_stats(t, rows) == t,
    decreases rows.len(),
{
    if rows.len() > 0 {
        assert(forall|i: int|
            0 <= i < rows.drop_last().len() ==> pool_stat_row_settled(
                t,
                #[trigger] rows.drop_last()[i],
            ));
        lemma_pool_stats_noop(t, rows.drop_last());
        let r = rows.last();
        assert(pool_stat_row_settled(t, rows[rows.len() - 1]));
        lemma_find_key_props(pool_stat_keys(t), r.pool_address);
        let f = find_key(pool_stat_keys(t), r.pool_address);
        assert(0 <= f < t.len());
        assert(upsert_pool_stat(t, r) == t.update(f, merge_pool_stat(t[f], r)));
        assert(t.update(f, merge_pool_stat(t[f], r)) =~= t);
    }
}

/// Idempotent replay for pool statistics: the snapshot overwrite makes a
/// replayed batch converge to the same row state.
pub proof fn lemma_pool_stats_replay(s: Seq<PoolStatView>, rows: Seq<PoolStatView>)
    requires
        distinct_keys(pool_stat_keys(rows)),
    ensures
        apply_pool_stats(apply_pool_stats(s, rows), rows) == apply_pool_stats(s, rows),
{
    lemma_pool_stats_settle(s, rows);
    lemma_pool_stats_noop(apply_pool_stats(s, rows), rows);
}

// ---------------------------------------------------------------------------
// Delta-once and order sensitivity
// ---------------------------------------------------------------------------

/// The chunk layout never touches a successful batch's outcome: for any two
/// chunk sizes, a create batch that succeeds leaves the same trades and the
/// same trader statistics, with the delta set applied exactly once, never
/// once per chunk.
pub proof fn lemma_delta_applied_once(t: Seq<Trade>, s: Seq<crate::trader_stat::TraderStat>,
    evs: Seq<(Trade, i64)>, cs1: int, cs2: int)
    ensures
        ({
            let (ta, sa, oka) = crate::storers::create_trade_event_storer::process_create_spec(
                t,
                s,
                evs,
                cs1,
            );
            let (tb, sb, okb) = crate::storers::create_trade_event_storer::process_create_spec(
                t,
                s,
                evs,
                cs2,
            );
            &&& oka == okb
            &&& (oka ==> ta == tb && sa == sb)
        }),
{
}

/// Order-sensitive fold at the row level: applying a later mutation after an
/// earlier one leaves exactly the later one's mutable columns, as if the
/// intermediate state had never been stored.
pub proof fn lemma_trade_merge_last_wins(orig: Trade, earlier: Trade, later: Trade)
    ensures
        merge_trade(merge_trade(orig, earlier), later) == merge_trade(orig, later),
{
}

// ---------------------------------------------------------------------------
// Swap id uniqueness
// ---------------------------------------------------------------------------

pub open spec fn lacks_char(s: Seq<char>, c: char) -> bool {
    forall|i: int| 0 <= i < s.len() ==> s[i] != c
}

/// Splitting at a separator that the suffixes never contain is unambiguous.
pub proof fn lemma_sep_split(a1: Seq<char>, d1: Seq<char>, a2: Seq<char>, d2: Seq<char>, sep: char)
    requires
        a1 + seq![sep] + d1 == a2 + seq![sep] + d2,
        lacks_char(d1, sep),
        lacks_char(d2, sep),
    ensures
        a1 == a2,
        d1 == d2,
{
    let left = a1 + seq![sep] + d1;
    let right = a2 + seq![sep] + d2;
    assert(left.len() == right.len());
    if d1.len() < d2.len() {
        let p = left.len() - 1 - d1.len();
        assert(left[p] == sep);
        assert(p > a2.len());
        assert(right[p] == d2[p - a2.len() - 1]);
        assert(false);
    }
    if d2.len() < d1.len() {
        let p = left.len() - 1 - d2.len();
        assert(right[p] == sep);
        assert(p > a1.len());
        assert(left[p] == d1[p - a1.len() - 1]);
        assert(false);
    }
    assert(a1.len() == a2.len());
    assert forall|i: int| 0 <= i < a1.len() implies a1[i] == a2[i] by {
        assert(left[i] == a1[i]);
        assert(right[i] == a2[i]);
    }
    assert(a1 =~= a2);
    assert forall|i: int| 0 <= i < d1.len() implies d1[i] == d2[i] by {
        assert(left[a1.len() + 1 + i] == d1[i]);
        assert(right[a2.len() + 1 + i] == d2[i]);
    }
    assert(d1 =~= d2);
}

/// A decimal rendering never contains a hyphen.
pub proof fn lemma_dec_repr_lacks_hyphen(n: nat)
    ensures
        lacks_char(crate::numeric::dec_repr(n), '-'),
{
    crate::numeric::lemma_dec_repr_val(n);
    assert forall|i: int| 0 <= i < crate::numeric::dec_repr(n).len() implies crate::numeric::dec_repr(
        n,
    )[i] != '-' by {
        assert(crate::numeric::is_digit(crate::numeric::dec_repr(n)[i]));
    }
}

/// Equal renderings come from equal numbers.
pub proof fn lemma_dec_repr_injective(m: nat, n: nat)
    requires
        crate::numeric::dec_repr(m) == crate::numeric::dec_repr(n),
    ensures
        m == n,
{
    crate::numeric::lemma_dec_repr_val(m);
    crate::numeric::lemma_dec_repr_val(n);
}

/// Composite key uniqueness: two swap ids are equal exactly when pool,
/// stream version and event index all agree, so distinct events from the
/// same pool and version but different indices get distinct rows, while an
/// exact replay rebuilds the same id and is absorbed.
pub proof fn lemma_swap_id_injective(p1: Seq<char>, v1: int, i1: int, p2: Seq<char>, v2: int,
    i2: int)
    requires
        v1 >= 0,
        i1 >= 0,
        v2 >= 0,
        i2 >= 0,
        crate::hyperion_swap::swap_id_spec(p1, v1, i1) == crate::hyperion_swap::swap_id_spec(
            p2,
            v2,
            i2,
        ),
    ensures
        p1 == p2,
        v1 == v2,
        i1 == i2,
{
    let rv1 = crate::numeric::dec_repr(v1 as nat);
    let ri1 = crate::numeric::dec_repr(i1 as nat);
    let rv2 = crate::numeric::dec_repr(v2 as nat);
    let ri2 = crate::numeric::dec_repr(i2 as nat);
    assert(crate::numeric::i64_repr(v1) == rv1);
    assert(crate::numeric::i64_repr(i1) == ri1);
    assert(crate::numeric::i64_repr(v2) == rv2);
    assert(crate::numeric::i64_repr(i2) == ri2);
    let a1 = p1 + seq!['-'] + rv1;
    let a2 = p2 + seq!['-'] + rv2;
    assert(a1 + seq!['-'] + ri1 =~= crate::hyperion_swap::swap_id_spec(p1, v1, i1));
    assert(a2 + seq!['-'] + ri2 =~= crate::hyperion_swap::swap_id_spec(p2, v2, i2));
    lemma_dec_repr_lacks_hyphen(i1 as nat);
    lemma_dec_repr_lacks_hyphen(i2 as nat);
    lemma_sep_split(a1, ri1, a2, ri2, '-');
    lemma_dec_repr_injective(i1 as nat, i2 as nat);
    lemma_dec_repr_lacks_hyphen(v1 as nat);
    lemma_dec_repr_lacks_hyphen(v2 as nat);
    lemma_sep_split(p1, rv1, p2, rv2, '-');
    lemma_dec_repr_injective(v1 as nat, v2 as nat);
}


// ---------------------------------------------------------------------------
// Order-sensitive fold through the whole pipeline
// ---------------------------------------------------------------------------

/// Order-sensitive fold: a batch holding create, update and cancel for one
/// trade address, in that order, for a trader the store has not seen, leaves
/// exactly one trade row carrying the cancel's mutable columns over the
/// create's identity, and one statistics row counting one create, one update
/// award and one cancellation - not one increment per intermediate state.
pub proof fn lemma_order_sensitive_fold(t: Seq<Trade>, s: Seq<crate::trader_stat::TraderStat>,
    p: Seq<HyperionPool>, w: Seq<HyperionSwap>, ps: Seq<PoolStatView>, c: Trade, u: Trade,
    x: Trade, q1: i64, q2: i64, q3: i64, cs: int)
    requires
        u.trade_obj_addr@ == c.trade_obj_addr@,
        x.trade_obj_addr@ == c.trade_obj_addr@,
        u.trader_addr@ == c.trader_addr@,
        x.trader_addr@ == c.trader_addr@,
        find_key(trades_keys(t), c.trade_obj_addr@) == -1,
        find_key(crate::store::stats_keys(s), c.trader_addr@) == -1,
    ensures
        ({
            let evs = seq![
                crate::events::ContractEvent::CreateTradeEvent(c, q1),
                crate::events::ContractEvent::UpdateTradeEvent(u, q2),
                crate::events::ContractEvent::CancelTradeEvent(x, q3),
            ];
            let (t2, s2, p2, w2, ps2, ok) = crate::storer::pipeline_spec(t, s, p, w, ps, evs, cs);
            &&& ok
            &&& t2 == t.push(merge_trade(c, x))
            &&& s2 == s.push(
                crate::trader_stat::TraderStat {
                    trader_addr: c.trader_addr,
                    creation_timestamp: c.creation_timestamp,
                    last_update_timestamp: x.last_update_timestamp,
                    total_trades: 1,
                    completed_trades: 0,
                    cancelled_trades: 1,
                    total_buy_trades: if c.trade_type == 1 { 1i64 } else { 0i64 },
                    total_sell_trades: if c.trade_type == 2 { 1i64 } else { 0i64 },
                    total_swap_trades: if c.trade_type == 3 { 1i64 } else { 0i64 },
                    total_volume: c.price,
                    points: (crate::trader_stat::CREATE_TRADE_POINTS
                        + crate::trader_stat::UPDATE_TRADE_POINTS) as i64,
                },
            )
            &&& p2 == p
            &&& w2 == w
            &&& ps2 == ps
        }),
{
    let e0 = crate::events::ContractEvent::CreateTradeEvent(c, q1);
    let e1 = crate::events::ContractEvent::UpdateTradeEvent(u, q2);
    let e2 = crate::events::ContractEvent::CancelTradeEvent(x, q3);
    let evs = seq![e0, e1, e2];
    let evs2 = seq![e0, e1];
    let evs1 = seq![e0];
    let evs0 = Seq::<crate::events::ContractEvent>::empty();
    assert(evs.drop_last() =~= evs2);
    assert(evs2.drop_last() =~= evs1);
    assert(evs1.drop_last() =~= evs0);
    assert(evs.last() == e2);
    assert(evs2.last() == e1);
    assert(evs1.last() == e0);

    // classification of the three-event batch, one event at a time
    assert(crate::events::creates_of(evs0) =~= Seq::<(Trade, i64)>::empty());
    assert(crate::events::creates_of(evs1) =~= seq![(c, q1)]);
    assert(crate::events::creates_of(evs2) =~= seq![(c, q1)]);
    assert(crate::events::creates_of(evs) =~= seq![(c, q1)]);
    assert(crate::events::updates_of(evs0) =~= Seq::<(Trade, i64)>::empty());
    assert(crate::events::updates_of(evs1) =~= Seq::<(Trade, i64)>::empty());
    assert(crate::events::updates_of(evs2) =~= seq![(u, q2)]);
    assert(crate::events::updates_of(evs) =~= seq![(u, q2)]);
    assert(crate::events::cancels_of(evs0) =~= Seq::<(Trade, i64)>::empty());
    assert(crate::events::cancels_of(evs1) =~= Seq::<(Trade, i64)>::empty());
    assert(crate::events::cancels_of(evs2) =~= Seq::<(Trade, i64)>::empty());
    assert(crate::events::cancels_of(evs) =~= seq![(x, q3)]);
    assert(crate::events::completes_of(evs0) =~= Seq::<(Trade, i64)>::empty());
    assert(crate::events::completes_of(evs1) =~= Seq::<(Trade, i64)>::empty());
    assert(crate::events::completes_of(evs2) =~= Seq::<(Trade, i64)>::empty());
    assert(crate::events::completes_of(evs) =~= Seq::<(Trade, i64)>::empty());
    assert(crate::events::pools_of(evs0) =~= Seq::<HyperionPool>::empty());
    assert(crate::events::pools_of(evs1) =~= Seq::<HyperionPool>::empty());
    assert(crate::events::pools_of(evs2) =~= Seq::<HyperionPool>::empty());
    assert(crate::events::pools_of(evs) =~= Seq::<HyperionPool>::empty());
    assert(crate::events::swaps_of(evs0) =~= Seq::<HyperionSwap>::empty());
    assert(crate::events::swaps_of(evs1) =~= Seq::<HyperionSwap>::empty());
    assert(crate::events::swaps_of(evs2) =~= Seq::<HyperionSwap>::empty());
    assert(crate::events::swaps_of(evs) =~= Seq::<HyperionSwap>::empty());

    // the create stage: one fresh delta, rows = [c]
    let cevs = seq![(c, q1)];
    assert(cevs.drop_last() =~= Seq::<(Trade, i64)>::empty());
    let dc = crate::trader_stat::inc_create(
        crate::storers::create_trade_event_storer::create_fresh_stat(c),
        c.trade_type as int,
        c.price as int,
        c.creation_timestamp as int,
    );
    assert(crate::store::stats_keys(Seq::<crate::trader_stat::TraderStat>::empty())
        =~= Seq::<Seq<char>>::empty());
    assert(crate::storers::create_trade_event_storer::create_stats_fold(cevs) == Some(seq![dc]))
        by {
        assert(crate::storers::create_trade_event_storer::create_stats_fold(
            Seq::<(Trade, i64)>::empty(),
        ) == Some(Seq::<crate::trader_stat::TraderStat>::empty()));
        assert(find_key(Seq::<Seq<char>>::empty(), c.trader_addr@) == -1);
        assert(Seq::<crate::trader_stat::TraderStat>::empty().push(dc) =~= seq![dc]);
    }
    assert(crate::storers::rows_of(cevs) =~= seq![c]);
    assert(crate::store::stat_deltas_fit(s, seq![dc]));
    let t1s = apply_trade_creates(t, seq![c]);
    assert(seq![c].drop_last() =~= Seq::<Trade>::empty());
    assert(apply_trade_creates(t, Seq::<Trade>::empty()) == t);
    assert(seq![c].last() == c);
    assert(t1s == upsert_trade_create(t, c));
    assert(t1s == t.push(c));
    let s1s = crate::store::apply_stat_deltas(s, seq![dc]);
    assert(seq![dc].drop_last() =~= Seq::<crate::trader_stat::TraderStat>::empty());
    assert(crate::store::apply_stat_deltas(s, Seq::<crate::trader_stat::TraderStat>::empty())
        == s);
    assert(seq![dc].last() == dc);
    assert(s1s == crate::store::upsert_trader_stat(s, dc));
    assert(dc.trader_addr == c.trader_addr);
    assert(s1s == s.push(dc));
    let stage1 = crate::storers::create_trade_event_storer::process_create_spec(t, s, cevs, cs);
    assert(stage1.2);
    assert(stage1.0 == t1s);
    assert(stage1.1 == s1s);

    // where the keys now sit
    lemma_find_key_props(trades_keys(t), c.trade_obj_addr@);
    assert(trades_keys(t1s) =~= trades_keys(t).push(c.trade_obj_addr@));
    assert(trades_keys(t1s)[t.len() as int] == c.trade_obj_addr@);
    assert forall|j: int| 0 <= j < t.len() implies trades_keys(t1s)[j] != c.trade_obj_addr@ by {
        lemma_find_key_props(trades_keys(t), c.trade_obj_addr@);
        assert(trades_keys(t1s)[j] == trades_keys(t)[j]);
    }
    crate::store::lemma_find_key_at(trades_keys(t1s), c.trade_obj_addr@, t.len() as int);
    assert(crate::store::stats_keys(s1s) =~= crate::store::stats_keys(s).push(c.trader_addr@));
    assert(crate::store::stats_keys(s1s)[s.len() as int] == c.trader_addr@);
    assert forall|j: int| 0 <= j < s.len() implies crate::store::stats_keys(s1s)[j]
        != c.trader_addr@ by {
        lemma_find_key_props(crate::store::stats_keys(s), c.trader_addr@);
        assert(crate::store::stats_keys(s1s)[j] == crate::store::stats_keys(s)[j]);
    }
    crate::store::lemma_find_key_at(crate::store::stats_keys(s1s), c.trader_addr@, s.len() as int);

    // the update stage: a fresh per-kind delta that merges into the trader's row
    let uevs = seq![(u, q2)];
    assert(uevs.drop_last() =~= Seq::<(Trade, i64)>::empty());
    let du = crate::trader_stat::inc_update(
        crate::storers::update_trade_event_storer::update_fresh_stat(u),
        u.last_update_timestamp as int,
    );
    assert(crate::storers::update_trade_event_storer::update_stats_fold(uevs) == Some(seq![du]))
        by {
        assert(crate::storers::update_trade_event_storer::update_stats_fold(
            Seq::<(Trade, i64)>::empty(),
        ) == Some(Seq::<crate::trader_stat::TraderStat>::empty()));
        assert(find_key(Seq::<Seq<char>>::empty(), u.trader_addr@) == -1);
        assert(Seq::<crate::trader_stat::TraderStat>::empty().push(du) =~= seq![du]);
    }
    assert(crate::storers::rows_of(uevs) =~= seq![u]);
    assert(crate::store::stat_deltas_fit(s1s, seq![du])) by {
        assert(crate::store::stat_sums_fit(dc, du));
    }
    let t2s = apply_trade_mutations(t1s, seq![u]);
    assert(seq![u].drop_last() =~= Seq::<Trade>::empty());
    assert(apply_trade_mutations(t1s, Seq::<Trade>::empty()) == t1s);
    assert(seq![u].last() == u);
    assert(t2s == upsert_trade_mutation(t1s, u));
    assert(t2s == t1s.update(t.len() as int, merge_trade(c, u)));
    assert(t2s =~= t.push(merge_trade(c, u)));
    let s2s = crate::store::apply_stat_deltas(s1s, seq![du]);
    assert(seq![du].drop_last() =~= Seq::<crate::trader_stat::TraderStat>::empty());
    assert(crate::store::apply_stat_deltas(s1s, Seq::<crate::trader_stat::TraderStat>::empty())
        == s1s);
    assert(seq![du].last() == du);
    assert(s2s == crate::store::upsert_trader_stat(s1s, du));
    let dcu = crate::store::merge_trader_stat(dc, du);
    assert(s2s == s1s.update(s.len() as int, dcu));
    assert(s2s =~= s.push(dcu));
    let stage2 = crate::storers::update_trade_event_storer::process_update_spec(t1s, s1s, uevs, cs);
    assert(stage2.2);
    assert(stage2.0 == t2s);
    assert(stage2.1 == s2s);

    // the complete stage sees no events
    let stage3 = crate::storers::complete_trade_event_storer::process_complete_spec(
        t2s,
        s2s,
        Seq::<(Trade, i64)>::empty(),
        cs,
    );
    assert(crate::storers::complete_trade_event_storer::complete_stats_fold(
        Seq::<(Trade, i64)>::empty(),
    ) == Some(Seq::<crate::trader_stat::TraderStat>::empty()));
    assert(crate::store::stat_deltas_fit(s2s, Seq::<crate::trader_stat::TraderStat>::empty()));
    assert(crate::storers::rows_of(Seq::<(Trade, i64)>::empty()) =~= Seq::<Trade>::empty());
    assert(stage3.2);
    assert(stage3.0 == t2s);
    assert(stage3.1 == s2s);

    // keys have not moved: updates keep the key sequences
    assert(trades_keys(t2s) =~= trades_keys(t1s));
    assert(crate::store::stats_keys(s2s) =~= crate::store::stats_keys(s1s));

    // the cancel stage
    let xevs = seq![(x, q3)];
    assert(xevs.drop_last() =~= Seq::<(Trade, i64)>::empty());
    let dx = crate::trader_stat::inc_cancel(
        crate::storers::cancel_trade_event_storer::cancel_fresh_stat(x),
        x.last_update_timestamp as int,
    );
    assert(crate::storers::cancel_trade_event_storer::cancel_stats_fold(xevs) == Some(seq![dx]))
        by {
        assert(crate::storers::cancel_trade_event_storer::cancel_stats_fold(
            Seq::<(Trade, i64)>::empty(),
        ) == Some(Seq::<crate::trader_stat::TraderStat>::empty()));
        assert(find_key(Seq::<Seq<char>>::empty(), x.trader_addr@) == -1);
        assert(Seq::<crate::trader_stat::TraderStat>::empty().push(dx) =~= seq![dx]);
    }
    assert(crate::storers::rows_of(xevs) =~= seq![x]);
    assert(crate::store::stat_deltas_fit(s2s, seq![dx])) by {
        assert(crate::store::stat_sums_fit(dcu, dx));
    }
    let t3s = apply_trade_mutations(t2s, seq![x]);
    assert(seq![x].drop_last() =~= Seq::<Trade>::empty());
    assert(apply_trade_mutations(t2s, Seq::<Trade>::empty()) == t2s);
    assert(seq![x].last() == x);
    assert(t3s == upsert_trade_mutation(t2s, x));
    assert(t3s == t2s.update(t.len() as int, merge_trade(merge_trade(c, u), x)));
    lemma_trade_merge_last_wins(c, u, x);
    assert(t3s =~= t.push(merge_trade(c, x)));
    let s3s = crate::store::apply_stat_deltas(s2s, seq![dx]);
    assert(seq![dx].drop_last() =~= Seq::<crate::trader_stat::TraderStat>::empty());
    assert(crate::store::apply_stat_deltas(s2s, Seq::<crate::trader_stat::TraderStat>::empty())
        == s2s);
    assert(seq![dx].last() == dx);
    assert(s3s == crate::store::upsert_trader_stat(s2s, dx));
    let dcux = crate::store::merge_trader_stat(dcu, dx);
    assert(s3s == s2s.update(s.len() as int, dcux));
    assert(s3s =~= s.push(dcux));
    let stage4 = crate::storers::cancel_trade_event_storer::process_cancel_spec(t2s, s2s, xevs, cs);
    assert(stage4.2);
    assert(stage4.0 == t3s);
    assert(stage4.1 == s3s);

    // pools and swaps are untouched
    assert(apply_pools(p, Seq::<HyperionPool>::empty()) == p);
    assert(apply_swaps(w, Seq::<HyperionSwap>::empty()) == w);
    assert(crate::storers::hyperion_swap_storer::pool_stats_fold(Seq::<HyperionSwap>::empty())
        =~= Seq::<PoolStatView>::empty());
    assert(apply_pool_stats(ps, Seq::<PoolStatView>::empty()) == ps);

    // and the merged statistics row is exactly the claimed one
    assert(dcux == crate::trader_stat::TraderStat {
        trader_addr: c.trader_addr,
        creation_timestamp: c.creation_timestamp,
        last_update_timestamp: x.last_update_timestamp,
        total_trades: 1,
        completed_trades: 0,
        cancelled_trades: 1,
        total_buy_trades: if c.trade_type == 1 { 1i64 } else { 0i64 },
        total_sell_trades: if c.trade_type == 2 { 1i64 } else { 0i64 },
        total_swap_trades: if c.trade_type == 3 { 1i64 } else { 0i64 },
        total_volume: c.price,
        points: (crate::trader_stat::CREATE_TRADE_POINTS
            + crate::trader_stat::UPDATE_TRADE_POINTS) as i64,
    });
}

} // verus!
