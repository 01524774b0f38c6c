//! The domain event model and the classifier.
//!
//! A batch arrives as one ordered sequence of decoded events; the classifier
//! partitions it into per-kind lists, keeping the original relative order
//! inside each kind, since later events for an entity depend on earlier ones.

use vstd::prelude::*;
use crate::hyperion_pool::HyperionPool;
use crate::hyperion_swap::HyperionSwap;
use crate::trade::Trade;

verus! {

/// One decoded on-chain event, already converted to its row payload. Trade
/// events also carry the on-chain event sequence number.
#[derive(Clone, Debug)]
pub enum ContractEvent {
    CreateTradeEvent(Trade, i64),
    UpdateTradeEvent(Trade, i64),
    CompleteTradeEvent(Trade, i64),
    CancelTradeEvent(Trade, i64),
    HyperionPoolCreated(HyperionPool),
    HyperionPoolStateUpdate(HyperionPool),
    HyperionSwap(HyperionSwap),
}

/// The per-kind lists of one classified batch.
pub struct ClassifiedEvents {
    pub trade_creates: Vec<(Trade, i64)>,
    pub trade_updates: Vec<(Trade, i64)>,
    pub trade_completes: Vec<(Trade, i64)>,
    pub trade_cancels: Vec<(Trade, i64)>,
    pub pool_events: Vec<HyperionPool>,
    pub swap_events: Vec<HyperionSwap>,
}

pub open spec fn creates_of(s: Seq<ContractEvent>) -> Seq<(Trade, i64)>
    decreases s.len(),
{
    if s.len() == 0 {
        Seq::empty()
    } else {
        match s.last() {
            ContractEvent::CreateTradeEvent(t, q) => creates_of(s.drop_last()).push((t, q)),
            _ => creates_of(s.drop_last()),
        }
    }
}

pub open spec fn updates_of(s: Seq<ContractEvent>) -> Seq<(Trade, i64)>
    decreases s.len(),
{
    if s.len() == 0 {
        Seq::empty()
    } else {
        match s.last() {
            ContractEvent::UpdateTradeEvent(t, q) => updates_of(s.drop_last()).push((t, q)),
            _ => updates_of(s.drop_last()),
        }
    }
}

pub open spec fn completes_of(s: Seq<ContractEvent>) -> Seq<(Trade, i64)>
    decreases s.len(),
{
    if s.len() == 0 {
        Seq::empty()
    } else {
        match s.last() {
            ContractEvent::CompleteTradeEvent(t, q) => completes_of(s.drop_last()).push((t, q)),
            _ => completes_of(s.drop_last()),
        }
    }
}

pub open spec fn cancels_of(s: Seq<ContractEvent>) -> Seq<(Trade, i64)>
    decreases s.len(),
{
    if s.len() == 0 {
        Seq::empty()
    } else {
        match s.last() {
            ContractEvent::CancelTradeEvent(t, q) => cancels_of(s.drop_last()).push((t, q)),
            _ => cancels_of(s.drop_last()),
        }
    }
}

/// Pool-created and pool-state-update events share one list, as both write
/// the same table.
pub open spec fn pools_of(s: Seq<ContractEvent>) -> Seq<HyperionPool>
    decreases s.len(),
{
    if s.len() == 0 {
        Seq::empty()
    } else {
        match s.last() {
            ContractEvent::HyperionPoolCreated(p) => pools_of(s.drop_last()).push(p),
            ContractEvent::HyperionPoolStateUpdate(p) => pools_of(s.drop_last()).push(p),
            _ => pools_of(s.drop_last()),
        }
    }
}

pub open spec fn swaps_of(s: Seq<ContractEvent>) -> Seq<HyperionSwap>
    decreases s.len(),
{
    if s.len() == 0 {
        Seq::empty()
    } else {
        match s.last() {
            ContractEvent::HyperionSwap(w) => swaps_of(s.drop_last()).push(w),
            _ => swaps_of(s.drop_last()),
        }
    }
}

/// Partitions one batch into its per-kind lists, in one pass, keeping the
/// original relative order within each kind.
pub fn classify_events(events: Vec<ContractEvent>) -> (r: ClassifiedEvents)
    ensures
        r.trade_creates@ == creates_of(events@),
        r.trade_updates@ == updates_of(events@),
        r.trade_completes@ == completes_of(events@),
        r.trade_cancels@ == cancels_of(events@),
        r.pool_events@ == pools_of(events@),
        r.swap_events@ == swaps_of(events@),
{
    let ghost evs = events@;
    let mut rest = events;
    let mut out = ClassifiedEvents {
        trade_creates: Vec::new(),
        trade_updates: Vec::new(),
        trade_completes: Vec::new(),
        trade_cancels: Vec::new(),
        pool_events: Vec::new(),
        swap_events: Vec::new(),
    };
    let ghost mut k: int = 0;
    while rest.len() > 0
        invariant
            0 <= k <= evs.len(),
            rest@ == evs.skip(k),
            out.trade_creates@ == creates_of(evs.take(k)),
            out.trade_updates@ == updates_of(evs.take(k)),
            out.trade_completes@ == completes_of(evs.take(k)),
            out.trade_cancels@ == cancels_of(evs.take(k)),
            out.pool_events@ == pools_of(evs.take(k)),
            out.swap_events@ == swaps_of(evs.take(k)),
        decreases rest@.len(),
    {
        let ev = rest.remove(0);
        proof {
            assert(ev == evs[k]);
            assert(rest@ =~= evs.skip(k + 1));
            assert(evs.take(k + 1).drop_last() =~= evs.take(k));
            assert(evs.take(k + 1).last() == evs[k]);
        }
        match ev {
            ContractEvent::CreateTradeEvent(t, q) => {
                out.trade_creates.push((t, q));
            },
            ContractEvent::UpdateTradeEvent(t, q) => {
                out.trade_updates.push((t, q));
            },
            ContractEvent::CompleteTradeEvent(t, q) => {
                out.trade_completes.push((t, q));
            },
            ContractEvent::CancelTradeEvent(t, q) => {
                out.trade_cancels.push((t, q));
            },
            ContractEvent::HyperionPoolCreated(p) => {
                out.pool_events.push(p);
            },
            ContractEvent::HyperionPoolStateUpdate(p) => {
                out.pool_events.push(p);
            },
            ContractEvent::HyperionSwap(w) => {
                out.swap_events.push(w);
            },
        }
        proof {
            k = k + 1;
        }
    }
    proof {
        assert(evs.take(evs.len() as int) =~= evs);
        assert(evs.take(k) =~= evs);
    }
    out
}

} // verus!
