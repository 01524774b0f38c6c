//! The pool storer: writes pool rows in bounded chunks. Pool writes carry no
//! statistic deltas, so every chunk is rows only and the write cannot fail.

use vstd::prelude::*;
use crate::hyperion_pool::HyperionPool;
use crate::persist::persist_pools;
use crate::store::{apply_pools, Database, StoreError};

verus! {

/// Writes one batch of pool events: each row upserts its pool under the
/// overwrite rule for point-in-time state.
pub fn process_hyperion_pool_events(db: &mut Database, chunk_size: usize, pools: Vec<
    HyperionPool,
>) -> (r: Result<(), StoreError>)
    requires
        chunk_size >= 1,
    ensures
        r is Ok,
        final(db).hyperion_pools@ == apply_pools(old(db).hyperion_pools@, pools@),
        final(db).trades@ == old(db).trades@,
        final(db).trader_stats@ == old(db).trader_stats@,
        final(db).hyperion_swaps@ == old(db).hyperion_swaps@,
        final(db).hyperion_pool_stats@ == old(db).hyperion_pool_stats@,
        final(db).checkpoints@ == old(db).checkpoints@,
{
    persist_pools(&mut db.hyperion_pools, &pools, chunk_size);
    Ok(())
}

} // verus!
