//! The pipeline adapter: receives one classified batch and drives the
//! per-kind storers in a fixed order, reporting success only when every
//! table's writes committed. A failed kind stops the pipeline; the kinds
//! already written stay, and a retry of the whole batch is absorbed by the
//! conflict rules.

use vstd::prelude::*;
use crate::events::{
    cancels_of, classify_events, completes_of, creates_of, pools_of, swaps_of, updates_of,
    ContractEvent,
};
use crate::hyperion_pool::HyperionPool;
use crate::hyperion_pool_stat::PoolStatView;
use crate::hyperion_swap::HyperionSwap;
use crate::store::{apply_pools, apply_swaps, apply_pool_stats, pool_stat_views, Database,
    StoreError};
use crate::storers::cancel_trade_event_storer::{process_cancel_spec, process_cancel_trade_events};
use crate::storers::complete_trade_event_storer::{
    process_complete_spec, process_complete_trade_events,
};
use crate::storers::create_trade_event_storer::{process_create_spec, process_create_trade_events};
use crate::storers::hyperion_pool_storer::process_hyperion_pool_events;
use crate::storers::hyperion_swap_storer::{pool_stats_fold, process_hyperion_swap_events};
use crate::storers::update_trade_event_storer::{process_update_spec, process_update_trade_events};
use crate::trade::Trade;
use crate::trader_stat::TraderStat;

verus! {

/// Chunk size used when the configuration gives none.
pub const DEFAULT_CHUNK_SIZE: usize = 100;

/// What one whole batch does to the store: trade creates, updates,
/// completions and cancellations in order, then pools, then swaps, stopping
/// at the first failed kind.
pub open spec fn pipeline_spec(t: Seq<Trade>, s: Seq<TraderStat>, p: Seq<HyperionPool>, w: Seq<
    HyperionSwap,
>, ps: Seq<PoolStatView>, evs: Seq<ContractEvent>, cs: int) -> (
    Seq<Trade>,
    Seq<TraderStat>,
    Seq<HyperionPool>,
    Seq<HyperionSwap>,
    Seq<PoolStatView>,
    bool,
) {
    let (t1, s1, ok1) = process_create_spec(t, s, creates_of(evs), cs);
    if !ok1 {
        (t1, s1, p, w, ps, false)
    } else {
        let (t2, s2, ok2) = process_update_spec(t1, s1, updates_of(evs), cs);
        if !ok2 {
            (t2, s2, p, w, ps, false)
        } else {
            let (t3, s3, ok3) = process_complete_spec(t2, s2, completes_of(evs), cs);
            if !ok3 {
                (t3, s3, p, w, ps, false)
            } else {
                let (t4, s4, ok4) = process_cancel_spec(t3, s3, cancels_of(evs), cs);
                if !ok4 {
                    (t4, s4, p, w, ps, false)
                } else {
                    (
                        t4,
                        s4,
                        apply_pools(p, pools_of(evs)),
                        apply_swaps(w, swaps_of(evs)),
                        apply_pool_stats(ps, pool_stats_fold(swaps_of(evs))),
                        true,
                    )
                }
            }
        }
    }
}

/// The step that stores one batch of events in the database.
pub struct Storer {
    pub chunk_size: usize,
}

impl Storer {
    /// A storer with the configured per-table chunk size, or the default
    /// where the configuration gives none or gives zero.
    pub fn new(chunk_size: Option<usize>) -> (r: Storer)
        ensures
            r.chunk_size >= 1,
            match chunk_size {
                Some(n) => n >= 1 ==> r.chunk_size == n,
                None => r.chunk_size == DEFAULT_CHUNK_SIZE,
            },
    {
        match chunk_size {
            Option::Some(n) => {
                if n >= 1 {
                    Storer { chunk_size: n }
                } else {
                    Storer { chunk_size: DEFAULT_CHUNK_SIZE }
                }
            },
            Option::None => Storer { chunk_size: DEFAULT_CHUNK_SIZE },
        }
    }

    /// The step's name.
    pub fn name(&self) -> (r: String)
        ensures
            r@ == "Storer"@,
    {
        "Storer".to_owned()
    }

    /// Stores one batch: classifies it, folds each kind, and writes every
    /// kind's rows and deltas through the chunked persister. `Ok` means the
    /// whole batch is durable; on `Err` the kinds before the failed one stay
    /// written, and the caller retries the batch from the last checkpoint,
    /// which the conflict rules absorb.
    pub fn process(&self, db: &mut Database, events: Vec<ContractEvent>) -> (r: Result<
        (),
        StoreError,
    >)
        requires
            self.chunk_size >= 1,
            events@.len() <= i64::MAX,
        ensures
            ({
                let (t2, s2, p2, w2, ps2, ok) = pipeline_spec(
                    old(db).trades@,
                    old(db).trader_stats@,
                    old(db).hyperion_pools@,
                    old(db).hyperion_swaps@,
                    pool_stat_views(old(db).hyperion_pool_stats@),
                    events@,
                    self.chunk_size as int,
                );
                &&& final(db).trades@ == t2
                &&& final(db).trader_stats@ == s2
                &&& final(db).hyperion_pools@ == p2
                &&& final(db).hyperion_swaps@ == w2
                &&& pool_stat_views(final(db).hyperion_pool_stats@) == ps2
                &&& (r is Ok <==> ok)
            }),
            final(db).checkpoints@ == old(db).checkpoints@,
    {
        proof {
            lemma_swaps_of_len(events@);
        }
        let classified = classify_events(events);
        match process_create_trade_events(db, self.chunk_size, classified.trade_creates) {
            Ok(()) => {},
            Err(e) => {
                return Err(e);
            },
        }
        match process_update_trade_events(db, self.chunk_size, classified.trade_updates) {
            Ok(()) => {},
            Err(e) => {
                return Err(e);
            },
        }
        match process_complete_trade_events(db, self.chunk_size, classified.trade_completes) {
            Ok(()) => {},
            Err(e) => {
                return Err(e);
            },
        }
        match process_cancel_trade_events(db, self.chunk_size, classified.trade_cancels) {
            Ok(()) => {},
            Err(e) => {
                return Err(e);
            },
        }
        match process_hyperion_pool_events(db, self.chunk_size, classified.pool_events) {
            Ok(()) => {},
            Err(e) => {
                return Err(e);
            },
        }
        match process_hyperion_swap_events(db, self.chunk_size, classified.swap_events) {
            Ok(()) => {},
            Err(e) => {
                return Err(e);
            },
        }
        Ok(())
    }
}

/// A batch has at least as many events as swaps.
pub proof fn lemma_swaps_of_len(s: Seq<ContractEvent>)
    ensures
        swaps_of(s).len() <= s.len(),
    decreases s.len(),
{
    if s.len() > 0 {
        lemma_swaps_of_len(s.drop_last());
    }
}

} // verus!
