//! Verified core of a blockchain event indexer: it folds batches of decoded
//! on-chain events into row upserts and per-key statistic deltas, applies them
//! to a relational store model under explicit per-table conflict rules, in
//! bounded chunks with the deltas applied by exactly one owner chunk, and
//! records checkpoints that make replay after a crash safe.

pub mod checkpoint;
pub mod events;
pub mod hyperion_pool;
pub mod hyperion_pool_stat;
pub mod hyperion_swap;
pub mod laws;
pub mod numeric;
pub mod persist;
pub mod store;
pub mod storer;
pub mod storers;
pub mod trade;
pub mod trader_stat;
