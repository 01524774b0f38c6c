//! Per-kind batch storers: each folds its event list into row upserts plus
//! at most one statistics delta per entity key, then hands them to the
//! chunked persister.

pub mod cancel_trade_event_storer;
pub mod complete_trade_event_storer;
pub mod create_trade_event_storer;
pub mod hyperion_pool_storer;
pub mod hyperion_swap_storer;
pub mod update_trade_event_storer;

use vstd::prelude::*;
use crate::trade::Trade;

verus! {

/// The rows a trade batch writes: one per event, in batch order, never
/// deduplicated.
pub open spec fn rows_of(evs: Seq<(Trade, i64)>) -> Seq<Trade> {
    evs.map_values(|p: (Trade, i64)| p.0)
}

/// Extracts the row of each event, in order.
pub fn trade_rows(events: &Vec<(Trade, i64)>) -> (r: Vec<Trade>)
    ensures
        r@ == rows_of(events@),
{
    let ghost evs = events@;
    let mut r: Vec<Trade> = Vec::new();
    let mut i: usize = 0;
    proof {
        assert(r@ =~= rows_of(evs.take(0)));
    }
    while i < events.len()
        invariant
            i <= evs.len(),
            evs == events@,
            r@ == rows_of(evs.take(i as int)),
        decreases evs.len() - i,
    {
        r.push(events[i].0.duplicate());
        proof {
            assert(r@ =~= rows_of(evs.take(i + 1)));
        }
        i = i + 1;
    }
    proof {
        assert(evs.take(evs.len() as int) =~= evs);
    }
    r
}

} // verus!
