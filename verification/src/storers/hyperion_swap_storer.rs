//! The swap storer: folds the batch's swaps into one per-pool statistics
//! snapshot, then writes swap rows in bounded chunks with the snapshots
//! applied inside the first chunk's transaction only.

use vstd::prelude::*;
use crate::hyperion_pool::DEFAULT_FEE_TIER;
use crate::hyperion_pool_stat::{
    price_micro, price_repr, swap_fee, HyperionPoolStat, PoolStatView,
};
use crate::hyperion_swap::HyperionSwap;
use crate::numeric::{dec_or_zero, dec_repr};
use crate::persist::persist_swaps;
use crate::store::{
    apply_pool_stats, apply_swaps, find_key, find_pool_stat_idx, lemma_find_key_props,
    pool_stat_keys, pool_stat_views, Database, StoreError,
};

verus! {

/// The zeroed snapshot the first swap for a pool starts from.
pub open spec fn fresh_pool_stat_view(pool: Seq<char>) -> PoolStatView {
    PoolStatView {
        pool_address: pool,
        tvl_usd: "0"@,
        volume_24h: "0"@,
        volume_7d: "0"@,
        fees_24h: "0"@,
        fees_7d: "0"@,
        apr: "0"@,
        swap_count_24h: 0,
        swap_count_7d: 0,
        unique_traders_24h: 0,
        unique_traders_7d: 0,
        last_price: "0"@,
        price_change_24h: "0"@,
        last_update_timestamp: 0,
    }
}

/// What one swap does to its pool's snapshot: one more swap, the input
/// amount added to volume by decimal-string addition, the fee at the default
/// tier accrued, the latest price and timestamp taken over.
pub open spec fn swap_step_view(v: PoolStatView, w: HyperionSwap) -> PoolStatView {
    PoolStatView {
        swap_count_24h: v.swap_count_24h + 1,
        volume_24h: dec_repr(dec_or_zero(v.volume_24h) + dec_or_zero(w.amount_in@)),
        fees_24h: dec_repr(
            dec_or_zero(v.fees_24h) + swap_fee(w.amount_in@, DEFAULT_FEE_TIER as int),
        ),
        last_price: match price_micro(w.amount_in@, w.amount_out@) {
            Some(q) => price_repr(q),
            None => v.last_price,
        },
        last_update_timestamp: w.timestamp as int,
        ..v
    }
}

pub open spec fn touch_swap(acc: Seq<PoolStatView>, w: HyperionSwap) -> Seq<PoolStatView> {
    let f = find_key(pool_stat_keys(acc), w.pool_address@);
    if f >= 0 {
        acc.update(f, swap_step_view(acc[f], w))
    } else {
        acc.push(swap_step_view(fresh_pool_stat_view(w.pool_address@), w))
    }
}

/// The whole batch folded in order: exactly one snapshot per distinct pool.
pub open spec fn pool_stats_fold(swaps: Seq<HyperionSwap>) -> Seq<PoolStatView>
    decreases swaps.len(),
{
    if swaps.len() == 0 {
        Seq::empty()
    } else {
        touch_swap(pool_stats_fold(swaps.drop_last()), swaps.last())
    }
}

/// Folds the batch's swaps into per-pool snapshots.
pub fn fold_pool_stats(swaps: &Vec<HyperionSwap>) -> (out: Vec<HyperionPoolStat>)
    requires
        swaps@.len() <= i64::MAX,
    ensures
        pool_stat_views(out@) == pool_stats_fold(swaps@),
        out@.len() > 0 ==> swaps@.len() > 0,
{
    let ghost ws = swaps@;
    let mut acc: Vec<HyperionPoolStat> = Vec::new();
    let mut i: usize = 0;
    proof {
        assert(ws.take(0) =~= Seq::<HyperionSwap>::empty());
        assert(pool_stat_views(acc@) =~= pool_stats_fold(ws.take(0)));
    }
    while i < swaps.len()
        invariant
            i <= ws.len(),
            ws == swaps@,
            ws.len() <= i64::MAX,
            pool_stat_views(acc@) == pool_stats_fold(ws.take(i as int)),
            acc@.len() <= i,
            forall|m: int| 0 <= m < acc@.len() ==> (#[trigger] acc@[m]).swap_count_24h <= i,
        decreases ws.len() - i,
    {
        let w = &swaps[i];
        proof {
            assert(ws.take(i + 1).drop_last() =~= ws.take(i as int));
            assert(ws.take(i + 1).last() == ws[i as int]);
        }
        let ghost before = acc@;
        match find_pool_stat_idx(&acc, &w.pool_address) {
            Option::Some(j) => {
                proof {
                    lemma_find_key_props(pool_stat_keys(pool_stat_views(before)), w.pool_address@);
                    assert(pool_stat_views(before)[j as int] == before[j as int]@);
                }
                let mut st = acc[j].duplicate();
                st.update_from_swap(
                    w.amount_in.as_str(),
                    w.amount_out.as_str(),
                    DEFAULT_FEE_TIER,
                    w.timestamp,
                );
                proof {
                    assert(st@ == swap_step_view(before[j as int]@, ws[i as int]));
                }
                acc.set(j, st);
                proof {
                    assert(pool_stat_views(acc@) =~= touch_swap(
                        pool_stat_views(before),
                        ws[i as int],
                    ));
                }
            },
            Option::None => {
                let mut st = HyperionPoolStat::new(w.pool_address.clone());
                proof {
                    assert(st@ == fresh_pool_stat_view(w.pool_address@));
                }
                st.update_from_swap(
                    w.amount_in.as_str(),
                    w.amount_out.as_str(),
                    DEFAULT_FEE_TIER,
                    w.timestamp,
                );
                proof {
                    assert(st@ == swap_step_view(fresh_pool_stat_view(w.pool_address@), ws[i as int]));
                }
                acc.push(st);
                proof {
                    assert(pool_stat_views(acc@) =~= touch_swap(
                        pool_stat_views(before),
                        ws[i as int],
                    ));
                }
            },
        }
        i = i + 1;
    }
    proof {
        assert(ws.take(ws.len() as int) =~= ws);
    }
    acc
}

/// Writes one batch of swap events: swap rows under the do-nothing rule on an
/// id collision, and the per-pool snapshots overwriting inside the first
/// chunk's transaction only. Snapshot application cannot fail, so the batch
/// always succeeds.
pub fn process_hyperion_swap_events(db: &mut Database, chunk_size: usize, swaps: Vec<
    HyperionSwap,
>) -> (r: Result<(), StoreError>)
    requires
        chunk_size >= 1,
        swaps@.len() <= i64::MAX,
    ensures
        r is Ok,
        final(db).hyperion_swaps@ == apply_swaps(old(db).hyperion_swaps@, swaps@),
        pool_stat_views(final(db).hyperion_pool_stats@) == apply_pool_stats(
            pool_stat_views(old(db).hyperion_pool_stats@),
            pool_stats_fold(swaps@),
        ),
        final(db).trades@ == old(db).trades@,
        final(db).trader_stats@ == old(db).trader_stats@,
        final(db).hyperion_pools@ == old(db).hyperion_pools@,
        final(db).checkpoints@ == old(db).checkpoints@,
{
    let snapshots = fold_pool_stats(&swaps);
    persist_swaps(
        &mut db.hyperion_swaps,
        &mut db.hyperion_pool_stats,
        &swaps,
        &snapshots,
        chunk_size,
        0,
    );
    Ok(())
}

} // verus!
