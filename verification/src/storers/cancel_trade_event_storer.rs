//! The trade-cancelled storer: folds trade-cancelled events into one delta per trader and
//! writes rows and deltas through the chunked persister.

use vstd::prelude::*;
use crate::persist::{apply_trade_rows, persist_trades, without_chunk};
use crate::store::{
    apply_stat_deltas, distinct_keys, find_key, lemma_find_key_props, find_stat_idx,
    stat_deltas_fit, stats_keys, Database, StoreError,
};
use crate::storers::{rows_of, trade_rows};
use crate::trade::Trade;
use crate::trader_stat::{inc_cancel, inc_cancel_fits, TraderStat};

verus! {

/// The zeroed accumulator the first cancel event for a trader starts from.
pub open spec fn cancel_fresh_stat(t: Trade) -> TraderStat {
    TraderStat {
        trader_addr: t.trader_addr,
        creation_timestamp: t.last_update_timestamp,
        last_update_timestamp: t.last_update_timestamp,
        total_trades: 0,
        completed_trades: 0,
        cancelled_trades: 0,
        total_buy_trades: 0,
        total_sell_trades: 0,
        total_swap_trades: 0,
        total_volume: 0,
        points: 0,
    }
}

/// Folds one cancel event into the accumulator map; `None` when the
/// increment would leave 64-bit range.
pub open spec fn touch_cancel(acc: Seq<TraderStat>, t: Trade) -> Option<Seq<TraderStat>> {
    let f = find_key(stats_keys(acc), t.trader_addr@);
    if f >= 0 {
        if inc_cancel_fits(acc[f]) {
            Some(acc.update(f, inc_cancel(acc[f], t.last_update_timestamp as int)))
        } else {
            None
        }
    } else {
        Some(acc.push(inc_cancel(cancel_fresh_stat(t), t.last_update_timestamp as int)))
    }
}

/// The whole batch folded in order: exactly one delta per distinct trader.
pub open spec fn cancel_stats_fold(evs: Seq<(Trade, i64)>) -> Option<Seq<TraderStat>>
    decreases evs.len(),
{
    if evs.len() == 0 {
        Some(Seq::empty())
    } else {
        match cancel_stats_fold(evs.drop_last()) {
            Option::Some(acc) => touch_cancel(acc, evs.last().0),
            Option::None => Option::None,
        }
    }
}

/// A failed prefix fails the whole fold.
pub proof fn lemma_cancel_fold_none(evs: Seq<(Trade, i64)>, j: int)
    requires
        0 <= j <= evs.len(),
        cancel_stats_fold(evs.take(j)) is None,
    ensures
        cancel_stats_fold(evs) is None,
    decreases evs.len() - j,
{
    if j == evs.len() {
        assert(evs.take(j) =~= evs);
    } else {
        assert(evs.take(j + 1).drop_last() =~= evs.take(j));
        lemma_cancel_fold_none(evs, j + 1);
    }
}

/// Folds the batch's cancel events into per-trader deltas.
pub fn fold_cancel_trade_stats(events: &Vec<(Trade, i64)>) -> (r: Result<Vec<TraderStat>, StoreError>)
    ensures
        match r {
            Ok(out) => cancel_stats_fold(events@) == Some(out@) && distinct_keys(stats_keys(out@)) && (
            out@.len() > 0 ==> events@.len() > 0),
            Err(_) => cancel_stats_fold(events@) is None,
        },
{
    let ghost evs = events@;
    let mut acc: Vec<TraderStat> = Vec::new();
    let mut i: usize = 0;
    proof {
        assert(evs.take(0) =~= Seq::<(Trade, i64)>::empty());
        assert(cancel_stats_fold(evs.take(0)) == Some(acc@));
    }
    while i < events.len()
        invariant
            i <= evs.len(),
            evs == events@,
            cancel_stats_fold(evs.take(i as int)) == Some(acc@),
            distinct_keys(stats_keys(acc@)),
            acc@.len() <= i,
        decreases evs.len() - i,
    {
        let t = &events[i].0;
        proof {
            assert(evs.take(i + 1).drop_last() =~= evs.take(i as int));
            assert(evs.take(i + 1).last() == evs[i as int]);
        }
        let ghost before = acc@;
        match find_stat_idx(&acc, &t.trader_addr) {
            Option::Some(j) => {
                proof {
                    lemma_find_key_props(stats_keys(before), t.trader_addr@);
                }
                let fits: bool = acc[j].cancelled_trades < i64::MAX;
                proof {
                    assert(fits == inc_cancel_fits(before[j as int]));
                }
                if fits {
                    let mut st = acc[j].duplicate();
                    st.increment_cancel_trade(t.last_update_timestamp);
                    acc.set(j, st);
                    proof {
                        assert(stats_keys(acc@) =~= stats_keys(before));
                        assert(acc@ == touch_cancel(before, evs[i as int].0).unwrap());
                    }
                } else {
                    proof {
                        assert(touch_cancel(before, evs[i as int].0) is None);
                        assert(cancel_stats_fold(evs.take(i + 1)) is None);
                        lemma_cancel_fold_none(evs, i + 1);
                    }
                    return Err(StoreError::CounterOverflow);
                }
            },
            Option::None => {
                proof {
                    lemma_find_key_props(stats_keys(before), t.trader_addr@);
                }
                let mut st = TraderStat::new(t.trader_addr.clone(), t.last_update_timestamp);
                proof {
                    assert(st == cancel_fresh_stat(evs[i as int].0));
                }
                st.increment_cancel_trade(t.last_update_timestamp);
                acc.push(st);
                proof {
                    assert(stats_keys(acc@) =~= stats_keys(before).push(t.trader_addr@));
                    assert(acc@ == touch_cancel(before, evs[i as int].0).unwrap());
                }
            },
        }
        i = i + 1;
    }
    proof {
        assert(evs.take(evs.len() as int) =~= evs);
    }
    Ok(acc)
}

/// What one cancel batch does to the trades and trader_stats tables:
/// nothing on an aggregation overflow; rows plus deltas once on success; all
/// but the owner chunk's rows, and no deltas, when the delta merge fails.
pub open spec fn process_cancel_spec(trades: Seq<Trade>, stats: Seq<TraderStat>, evs: Seq<(Trade, i64)>,
    cs: int) -> (Seq<Trade>, Seq<TraderStat>, bool) {
    match cancel_stats_fold(evs) {
        Option::None => (trades, stats, false),
        Option::Some(ds) => if stat_deltas_fit(stats, ds) {
            (apply_trade_rows(trades, rows_of(evs), false), apply_stat_deltas(stats, ds), true)
        } else {
            (
                apply_trade_rows(trades, without_chunk(rows_of(evs), cs, 0), false),
                stats,
                false,
            )
        },
    }
}

/// Writes one batch of trade-cancelled events: rows in bounded chunks, the
/// per-trader deltas inside the first chunk's transaction only.
pub fn process_cancel_trade_events(db: &mut Database, chunk_size: usize, events: Vec<(Trade, i64)>) -> (r: Result<
    (),
    StoreError,
>)
    requires
        chunk_size >= 1,
    ensures
        ({
            let (t2, s2, ok) = process_cancel_spec(
                old(db).trades@,
                old(db).trader_stats@,
                events@,
                chunk_size as int,
            );
            &&& final(db).trades@ == t2
            &&& final(db).trader_stats@ == s2
            &&& (r is Ok <==> ok)
        }),
        final(db).hyperion_pools@ == old(db).hyperion_pools@,
        final(db).hyperion_swaps@ == old(db).hyperion_swaps@,
        final(db).hyperion_pool_stats@ == old(db).hyperion_pool_stats@,
        final(db).checkpoints@ == old(db).checkpoints@,
{
    let deltas = match fold_cancel_trade_stats(&events) {
        Ok(v) => v,
        Err(e) => {
            return Err(e);
        },
    };
    let rows = trade_rows(&events);
    persist_trades(&mut db.trades, &mut db.trader_stats, &rows, &deltas, chunk_size, 0, false)
}

} // verus!
