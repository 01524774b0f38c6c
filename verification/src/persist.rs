//! The chunked transactional persister.
//!
//! Rows are applied in bounded chunks, each chunk standing for one atomic
//! transaction. The batch's statistic deltas ride inside exactly one chunk's
//! transaction, named by an explicit owner-chunk index, so that splitting a
//! batch over many transactions can never apply an additive delta twice. If
//! the delta merge fails, the owner chunk's whole transaction rolls back:
//! its rows are not applied, the deltas are not applied, and the batch
//! reports failure; sibling chunks stay committed, which is safe because a
//! retry of the batch is absorbed by the conflict rules.

use vstd::prelude::*;
use crate::hyperion_pool::HyperionPool;
use crate::hyperion_pool_stat::HyperionPoolStat;
use crate::hyperion_swap::HyperionSwap;
use crate::store::{
    apply_one_pool, apply_one_pool_stat, apply_one_swap, apply_one_trade_create,
    apply_one_trade_mutation, apply_pool_stats, apply_pools, apply_stat_deltas, apply_swaps,
    apply_trade_creates, apply_trade_mutations, apply_stat_deltas_exec, distinct_keys,
    pool_stat_views, stat_deltas_fit, stats_keys, StoreError,
};
use crate::trade::Trade;
use crate::trader_stat::TraderStat;

verus! {

/// Either of the two trades-table conflict rules, folded over a row sequence.
pub open spec fn apply_trade_rows(s: Seq<Trade>, rows: Seq<Trade>, create_mode: bool) -> Seq<
    Trade,
> {
    if create_mode {
        apply_trade_creates(s, rows)
    } else {
        apply_trade_mutations(s, rows)
    }
}

/// The end of chunk `oc` when rows are cut into chunks of `cs`.
pub open spec fn chunk_end(len: int, cs: int, oc: int) -> int {
    if (oc + 1) * cs < len {
        (oc + 1) * cs
    } else {
        len
    }
}

/// The rows with chunk `oc` cut out: what remains committed when that one
/// transaction rolls back.
pub open spec fn without_chunk<T>(rows: Seq<T>, cs: int, oc: int) -> Seq<T> {
    let start = oc * cs;
    let end = chunk_end(rows.len() as int, cs, oc);
    if 0 <= start <= end <= rows.len() {
        rows.take(start) + rows.skip(end)
    } else {
        rows
    }
}

/// Writes one batch's trade rows in chunks, with the per-trader deltas
/// applied inside the owner chunk's transaction and nowhere else.
pub fn persist_trades(trades: &mut Vec<Trade>, stats: &mut Vec<TraderStat>, rows: &Vec<Trade>,
    deltas: &Vec<TraderStat>, chunk_size: usize, owner_chunk: usize, create_mode: bool) -> (r:
    Result<(), StoreError>)
    requires
        chunk_size >= 1,
        distinct_keys(stats_keys(deltas@)),
        deltas@.len() > 0 ==> (owner_chunk as int) * (chunk_size as int) < rows@.len(),
    ensures
        match r {
            Ok(()) => stat_deltas_fit(old(stats)@, deltas@) && final(trades)@ == apply_trade_rows(
                old(trades)@,
                rows@,
                create_mode,
            ) && final(stats)@ == apply_stat_deltas(old(stats)@, deltas@),
            Err(_) => !stat_deltas_fit(old(stats)@, deltas@) && final(stats)@ == old(stats)@
                && final(trades)@ == apply_trade_rows(
                old(trades)@,
                without_chunk(rows@, chunk_size as int, owner_chunk as int),
                create_mode,
            ),
        },
{
    let ghost rs = rows@;
    let ghost cs = chunk_size as int;
    let ghost oc = owner_chunk as int;
    let mut idx: usize = 0;
    let mut chunk: usize = 0;
    let mut failed: bool = false;
    let mut applied: bool = false;
    let ghost mut done: Seq<Trade> = Seq::<Trade>::empty();
    proof {
        assert(apply_trade_rows(old(trades)@, done, create_mode) =~= old(trades)@);
    }
    while idx < rows.len()
        invariant
            chunk_size >= 1,
            rs == rows@,
            cs == chunk_size as int,
            oc == owner_chunk as int,
            idx <= rs.len(),
            idx < rs.len() ==> idx as int == (chunk as int) * cs,
            idx as int <= (chunk as int) * cs,
            distinct_keys(stats_keys(deltas@)),
            deltas@.len() > 0 ==> oc * cs < rs.len(),
            trades@ == apply_trade_rows(old(trades)@, done, create_mode),
            !failed ==> done == rs.take(idx as int),
            failed ==> chunk as int > oc && chunk_end(rs.len() as int, cs, oc) <= idx as int
                && done == rs.take(oc * cs) + rs.subrange(
                chunk_end(rs.len() as int, cs, oc),
                idx as int,
            ),
            applied ==> stats@ == apply_stat_deltas(old(stats)@, deltas@) && stat_deltas_fit(
                old(stats)@,
                deltas@,
            ) && !failed && deltas@.len() > 0 && (chunk as int) > oc,
            !applied ==> stats@ == old(stats)@,
            failed ==> !applied && !stat_deltas_fit(old(stats)@, deltas@) && deltas@.len() > 0,
            !applied && !failed ==> (chunk as int) <= oc || deltas@.len() == 0,
            (chunk as int) <= rs.len(),
        decreases rs.len() - idx,
    {
        let ghost idx0 = idx as int;
        let ghost chunk0 = chunk as int;
        let end: usize = if chunk_size < rows.len() - idx {
            idx + chunk_size
        } else {
            rows.len()
        };
        proof {
            assert((chunk0 + 1) * cs == chunk0 * cs + cs) by (nonlinear_arith);
        }
        let mut rolled_back: bool = false;
        if chunk == owner_chunk && deltas.len() > 0 {
            let ok = apply_stat_deltas_exec(stats, deltas);
            if ok {
                applied = true;
            } else {
                failed = true;
                rolled_back = true;
                proof {
                    assert(end as int == chunk_end(rs.len() as int, cs, oc));
                    assert(rs.subrange(end as int, end as int) =~= Seq::<Trade>::empty());
                    assert(done == rs.take(oc * cs));
                    assert(done =~= rs.take(oc * cs) + rs.subrange(end as int, end as int));
                }
                idx = end;
            }
        }
        if !rolled_back {
            while idx < end
                invariant
                    idx <= end,
                    end <= rs.len(),
                    rs == rows@,
                    cs >= 1,
                    oc >= 0,
                    trades@ == apply_trade_rows(old(trades)@, done, create_mode),
                    !failed ==> done == rs.take(idx as int),
                    failed ==> chunk_end(rs.len() as int, cs, oc) <= idx as int && done == rs.take(
                        oc * cs,
                    ) + rs.subrange(chunk_end(rs.len() as int, cs, oc), idx as int),
                decreases end - idx,
            {
                if create_mode {
                    apply_one_trade_create(trades, &rows[idx]);
                } else {
                    apply_one_trade_mutation(trades, &rows[idx]);
                }
                proof {
                    let stepped = done.push(rs[idx as int]);
                    assert(stepped.drop_last() =~= done);
                    assert(stepped.last() == rs[idx as int]);
                    assert(apply_trade_rows(old(trades)@, stepped, create_mode) == trades@);
                    if !failed {
                        assert(stepped =~= rs.take(idx + 1));
                    } else {
                        let ce = chunk_end(rs.len() as int, cs, oc);
                        assert((oc + 1) * cs >= 0) by (nonlinear_arith)
                            requires
                                oc >= 0,
                                cs >= 1,
                        ;
                        assert(0 <= ce);
                        assert(rs.subrange(ce, idx + 1) =~= rs.subrange(ce, idx as int).push(
                            rs[idx as int],
                        ));
                        assert(stepped =~= rs.take(oc * cs) + rs.subrange(ce, idx + 1));
                    }
                    done = stepped;
                }
                idx = idx + 1;
            }
        }
        proof {
            assert(chunk0 <= chunk0 * cs) by (nonlinear_arith)
                requires
                    cs >= 1,
                    chunk0 >= 0,
            ;
            assert(chunk0 < rs.len());
        }
        chunk = chunk + 1;
        proof {
            assert(idx as int <= (chunk0 + 1) * cs);
            if idx < rs.len() {
                assert(idx as int == (chunk as int) * cs);
            }
        }
    }
    proof {
        if !failed {
            assert(done =~= rs);
            if deltas@.len() > 0 {
                assert(oc * cs < rs.len());
                if !applied {
                    assert((chunk as int) <= oc);
                    assert((chunk as int) * cs <= oc * cs) by (nonlinear_arith)
                        requires
                            (chunk as int) <= oc,
                            cs >= 1,
                    ;
                    assert(false);
                }
            } else {
                assert(apply_stat_deltas(old(stats)@, deltas@) == old(stats)@);
            }
        } else {
            let ce = chunk_end(rs.len() as int, cs, oc);
            assert(0 <= oc * cs && oc * cs <= (oc + 1) * cs) by (nonlinear_arith)
                requires
                    oc >= 0,
                    cs >= 1,
            ;
            assert(oc * cs < rs.len());
            assert(0 <= oc * cs <= ce <= rs.len());
            assert(done =~= without_chunk(rs, cs, oc));
        }
    }
    if failed {
        Err(StoreError::CounterOverflow)
    } else {
        Ok(())
    }
}

/// Writes one batch's pool rows in chunks; pool writes carry no deltas, so
/// every chunk is rows only.
pub fn persist_pools(pools: &mut Vec<HyperionPool>, rows: &Vec<HyperionPool>, chunk_size: usize)
    requires
        chunk_size >= 1,
    ensures
        final(pools)@ == apply_pools(old(pools)@, rows@),
{
    let ghost rs = rows@;
    let mut idx: usize = 0;
    proof {
        assert(rs.take(0) =~= Seq::<HyperionPool>::empty());
    }
    while idx < rows.len()
        invariant
            idx <= rs.len(),
            rs == rows@,
            pools@ == apply_pools(old(pools)@, rs.take(idx as int)),
        decreases rs.len() - idx,
    {
        apply_one_pool(pools, &rows[idx]);
        proof {
            assert(rs.take(idx + 1).drop_last() =~= rs.take(idx as int));
            assert(rs.take(idx + 1).last() == rs[idx as int]);
        }
        idx = idx + 1;
    }
    proof {
        assert(rs.take(rs.len() as int) =~= rs);
    }
}

/// Writes one batch's swap rows in chunks, with the per-pool statistic
/// snapshots applied inside the owner chunk's transaction and nowhere else.
/// Snapshot application is an overwrite and cannot fail, so the whole write
/// succeeds.
pub fn persist_swaps(swaps: &mut Vec<HyperionSwap>, pool_stats: &mut Vec<HyperionPoolStat>,
    rows: &Vec<HyperionSwap>, snapshots: &Vec<HyperionPoolStat>, chunk_size: usize,
    owner_chunk: usize)
    requires
        chunk_size >= 1,
        snapshots@.len() > 0 ==> (owner_chunk as int) * (chunk_size as int) < rows@.len(),
    ensures
        final(swaps)@ == apply_swaps(old(swaps)@, rows@),
        pool_stat_views(final(pool_stats)@) == apply_pool_stats(
            pool_stat_views(old(pool_stats)@),
            pool_stat_views(snapshots@),
        ),
{
    let ghost rs = rows@;
    let ghost cs = chunk_size as int;
    let ghost oc = owner_chunk as int;
    let mut idx: usize = 0;
    let mut chunk: usize = 0;
    let mut applied: bool = false;
    proof {
        assert(rs.take(0) =~= Seq::<HyperionSwap>::empty());
        assert(apply_pool_stats(
            pool_stat_views(old(pool_stats)@),
            pool_stat_views(snapshots@).take(0),
        ) =~= pool_stat_views(old(pool_stats)@));
    }
    while idx < rows.len()
        invariant
            chunk_size >= 1,
            rs == rows@,
            cs == chunk_size as int,
            oc == owner_chunk as int,
            idx <= rs.len(),
            idx < rs.len() ==> idx as int == (chunk as int) * cs,
            idx as int <= (chunk as int) * cs,
            snapshots@.len() > 0 ==> oc * cs < rs.len(),
            swaps@ == apply_swaps(old(swaps)@, rs.take(idx as int)),
            applied ==> pool_stat_views(pool_stats@) == apply_pool_stats(
                pool_stat_views(old(pool_stats)@),
                pool_stat_views(snapshots@),
            ),
            applied ==> (chunk as int) > oc,
            !applied ==> pool_stats@ == old(pool_stats)@,
            !applied ==> (chunk as int) <= oc || snapshots@.len() == 0,
            (chunk as int) <= rs.len(),
        decreases rs.len() - idx,
    {
        let ghost idx0 = idx as int;
        let ghost chunk0 = chunk as int;
        let end: usize = if chunk_size < rows.len() - idx {
            idx + chunk_size
        } else {
            rows.len()
        };
        proof {
            assert((chunk0 + 1) * cs == chunk0 * cs + cs) by (nonlinear_arith);
        }
        if chunk == owner_chunk && snapshots.len() > 0 {
            let ghost svs = pool_stat_views(snapshots@);
            let mut j: usize = 0;
            proof {
                assert(svs.take(0) =~= Seq::<crate::hyperion_pool_stat::PoolStatView>::empty());
            }
            while j < snapshots.len()
                invariant
                    j <= svs.len(),
                    svs == pool_stat_views(snapshots@),
                    pool_stat_views(pool_stats@) == apply_pool_stats(
                        pool_stat_views(old(pool_stats)@),
                        svs.take(j as int),
                    ),
                decreases svs.len() - j,
            {
                apply_one_pool_stat(pool_stats, &snapshots[j]);
                proof {
                    assert(svs.take(j + 1).drop_last() =~= svs.take(j as int));
                    assert(svs.take(j + 1).last() == svs[j as int]);
                }
                j = j + 1;
            }
            proof {
                assert(svs.take(svs.len() as int) =~= svs);
            }
            applied = true;
        }
        while idx < end
            invariant
                idx <= end,
                end <= rs.len(),
                rs == rows@,
                swaps@ == apply_swaps(old(swaps)@, rs.take(idx as int)),
            decreases end - idx,
        {
            apply_one_swap(swaps, &rows[idx]);
            proof {
                assert(rs.take(idx + 1).drop_last() =~= rs.take(idx as int));
                assert(rs.take(idx + 1).last() == rs[idx as int]);
            }
            idx = idx + 1;
        }
        proof {
            assert(chunk0 <= chunk0 * cs) by (nonlinear_arith)
                requires
                    cs >= 1,
                    chunk0 >= 0,
            ;
            assert(chunk0 < rs.len());
        }
        chunk = chunk + 1;
        proof {
            assert(idx as int <= (chunk0 + 1) * cs);
            if idx < rs.len() {
                assert(idx as int == (chunk as int) * cs);
            }
        }
    }
    proof {
        assert(rs.take(rs.len() as int) =~= rs);
        if snapshots@.len() > 0 && !applied {
            assert((chunk as int) <= oc);
            assert((chunk as int) * cs <= oc * cs) by (nonlinear_arith)
                requires
                    (chunk as int) <= oc,
                    cs >= 1,
            ;
            assert(false);
        }
        if snapshots@.len() == 0 {
            assert(pool_stat_views(snapshots@).len() == 0);
            assert(apply_pool_stats(
                pool_stat_views(old(pool_stats)@),
                pool_stat_views(snapshots@),
            ) =~= pool_stat_views(old(pool_stats)@));
        }
    }
}

} // verus!
