use indexer::checkpoint::{last_progress, record_progress};
use indexer::events::ContractEvent;
use indexer::hyperion_pool::{HyperionPool, PoolCreatedEventOnChain, PoolStateUpdateEventOnChain};
use indexer::hyperion_swap::{HyperionSwap, SwapEventOnChain};
use indexer::store::Database;
use indexer::storer::Storer;

fn pool_created(addr: &str) -> HyperionPool {
    let ev = PoolCreatedEventOnChain {
        pool_address: addr.to_string(),
        token0: "0xa".to_string(),
        token1: "0xb".to_string(),
        token0_symbol: "APT".to_string(),
        token1_symbol: "USDC".to_string(),
        fee: "3000".to_string(),
        tick_spacing: "60".to_string(),
        sqrt_price_x96: "79228162514264337593543950336".to_string(),
        tick: "0".to_string(),
        timestamp: "2000".to_string(),
    };
    HyperionPool::from_pool_created_event(&ev, 1)
}

fn pool_updated(addr: &str, liquidity: &str, version: i64) -> HyperionPool {
    let mut p = pool_created(addr);
    let ev = PoolStateUpdateEventOnChain {
        pool_address: addr.to_string(),
        liquidity: liquidity.to_string(),
        sqrt_price_x96: "79228162514264337593543950337".to_string(),
        tick: "12".to_string(),
        timestamp: "2001".to_string(),
    };
    p.update_from_state_event(&ev, version);
    p
}

fn swap(pool: &str, version: i64, idx: i64, amount_in: &str, amount_out: &str) -> HyperionSwap {
    let ev = SwapEventOnChain {
        pool: pool.to_string(),
        sender: "0xs".to_string(),
        recipient: "0xr".to_string(),
        token_in: "APT".to_string(),
        token_out: "USDC".to_string(),
        amount_in: amount_in.to_string(),
        amount_out: amount_out.to_string(),
        sqrt_price_x96: "1".to_string(),
        liquidity: "2".to_string(),
        tick: "3".to_string(),
        timestamp: "2002".to_string(),
    };
    HyperionSwap::from_swap_event(&ev, version, idx)
}

#[test]
fn big_liquidity_round_trips_as_an_unaltered_string() {
    // 2^128, beyond any native integer the row uses
    let big = "340282366920938463463374607431768211456";
    let storer = Storer::new(None);
    let mut db = Database::new();
    let events = vec![
        ContractEvent::HyperionPoolCreated(pool_created("0xp")),
        ContractEvent::HyperionPoolStateUpdate(pool_updated("0xp", big, 2)),
    ];
    assert!(storer.process(&mut db, events).is_ok());
    assert_eq!(db.hyperion_pools.len(), 1);
    assert_eq!(db.hyperion_pools[0].liquidity, big);
    assert_eq!(db.hyperion_pools[0].tick, 12);
    assert_eq!(db.hyperion_pools[0].last_update_version, 2);
    // identity and creation data survive the overwrite
    assert_eq!(db.hyperion_pools[0].creation_timestamp, 2000);
    assert_eq!(db.hyperion_pools[0].token0_symbol, "APT");
}

#[test]
fn swap_composite_key_distinguishes_indices_and_absorbs_replay() {
    // same pool and stream version, different event indices: two rows; the
    // identical swap re-delivered changes nothing.
    let storer = Storer::new(None);
    let mut db = Database::new();
    let events = vec![
        ContractEvent::HyperionSwap(swap("0xp", 40, 0, "1000000", "2000000")),
        ContractEvent::HyperionSwap(swap("0xp", 40, 1, "500000", "1100000")),
    ];
    assert!(storer.process(&mut db, events).is_ok());
    assert_eq!(db.hyperion_swaps.len(), 2);
    assert_eq!(db.hyperion_swaps[0].swap_id, "0xp-40-0");
    assert_eq!(db.hyperion_swaps[1].swap_id, "0xp-40-1");
    let swaps_once = db.hyperion_swaps.clone();
    let pool_stats_once = db.hyperion_pool_stats.clone();
    let replay = vec![
        ContractEvent::HyperionSwap(swap("0xp", 40, 0, "1000000", "2000000")),
        ContractEvent::HyperionSwap(swap("0xp", 40, 1, "500000", "1100000")),
    ];
    assert!(storer.process(&mut db, replay).is_ok());
    assert_eq!(db.hyperion_swaps, swaps_once);
    // the per-pool snapshot is an overwrite, so it too converges on replay
    assert_eq!(db.hyperion_pool_stats, pool_stats_once);
}

#[test]
fn swap_statistics_use_exact_millionths_arithmetic() {
    let storer = Storer::new(None);
    let mut db = Database::new();
    let events = vec![
        ContractEvent::HyperionSwap(swap("0xp", 41, 0, "1000000", "2500000")),
    ];
    assert!(storer.process(&mut db, events).is_ok());
    assert_eq!(db.hyperion_pool_stats.len(), 1);
    let st = &db.hyperion_pool_stats[0];
    assert_eq!(st.pool_address, "0xp");
    assert_eq!(st.swap_count_24h, 1);
    assert_eq!(st.volume_24h, "1000000");
    // fee at the 3000 parts-per-million default tier
    assert_eq!(st.fees_24h, "3000");
    // price = amount_out / amount_in with six fraction digits
    assert_eq!(st.last_price, "2.500000");
    assert_eq!(st.last_update_timestamp, 2002);
    // untouched columns keep their zero defaults
    assert_eq!(st.volume_7d, "0");
    assert_eq!(st.apr, "0");
}

#[test]
fn swap_volume_accumulates_beyond_64_bits() {
    let storer = Storer::new(None);
    let mut db = Database::new();
    let huge = "18446744073709551616";  // 2^64
    let events = vec![
        ContractEvent::HyperionSwap(swap("0xp", 42, 0, huge, "1")),
        ContractEvent::HyperionSwap(swap("0xp", 42, 1, huge, "1")),
    ];
    assert!(storer.process(&mut db, events).is_ok());
    let st = &db.hyperion_pool_stats[0];
    assert_eq!(st.swap_count_24h, 2);
    assert_eq!(st.volume_24h, "36893488147419103232");  // 2^65
}

#[test]
fn checkpoint_records_and_reads_resume_point() {
    let mut table = Vec::new();
    let name = "trade_processor".to_string();
    assert_eq!(last_progress(&table, &name), None);
    record_progress(&mut table, &name, 41, 900, 890);
    assert_eq!(last_progress(&table, &name), Some(41));
    // progress for another consumer is independent
    let other = "pool_processor".to_string();
    record_progress(&mut table, &other, 7, 901, 891);
    assert_eq!(last_progress(&table, &name), Some(41));
    assert_eq!(last_progress(&table, &other), Some(7));
    // re-recording overwrites, never duplicates
    record_progress(&mut table, &name, 55, 902, 892);
    assert_eq!(table.len(), 2);
    assert_eq!(last_progress(&table, &name), Some(55));
}

#[test]
fn resume_below_checkpoint_replays_safely() {
    // after recording version 40 as durable, the runner may re-deliver the
    // batch at versions <= 40; the conflict rules make it a no-op.
    let storer = Storer::new(None);
    let mut db = Database::new();
    let batch = vec![
        ContractEvent::HyperionPoolCreated(pool_created("0xp")),
        ContractEvent::HyperionSwap(swap("0xp", 40, 0, "1000", "2000")),
    ];
    assert!(storer.process(&mut db, batch).is_ok());
    let name = "indexer".to_string();
    record_progress(&mut db.checkpoints, &name, 40, 950, 940);
    let pools_once = db.hyperion_pools.clone();
    let swaps_once = db.hyperion_swaps.clone();
    let stats_once = db.hyperion_pool_stats.clone();
    let replay = vec![
        ContractEvent::HyperionPoolCreated(pool_created("0xp")),
        ContractEvent::HyperionSwap(swap("0xp", 40, 0, "1000", "2000")),
    ];
    assert!(storer.process(&mut db, replay).is_ok());
    assert_eq!(db.hyperion_pools, pools_once);
    assert_eq!(db.hyperion_swaps, swaps_once);
    assert_eq!(db.hyperion_pool_stats, stats_once);
    assert_eq!(last_progress(&db.checkpoints, &name), Some(40));
}
