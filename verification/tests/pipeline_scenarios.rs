use indexer::events::ContractEvent;
use indexer::store::{Database, StoreError};
use indexer::storer::Storer;
use indexer::storers::create_trade_event_storer::process_create_trade_events;
use indexer::trade::{
    CancelTradeEventOnChain, CompleteTradeEventOnChain, CreateTradeEventOnChain, Trade,
    UpdateTradeEventOnChain,
};

fn create_trade(addr: &str, trader: &str, trade_type: u8, price: &str, idx: i64) -> Trade {
    let ev = CreateTradeEventOnChain {
        trade_obj_addr: addr.to_string(),
        trader: trader.to_string(),
        trade_type,
        token_from: "APT".to_string(),
        token_to: "USDC".to_string(),
        amount_from: "10".to_string(),
        amount_to: "20".to_string(),
        price: price.to_string(),
        status: 1,
        creation_timestamp: "1000".to_string(),
        last_update_timestamp: "1000".to_string(),
        notes: "created".to_string(),
    };
    Trade::from_create_trade_event(&ev, idx)
}

fn update_trade(addr: &str, trader: &str, price: &str, idx: i64) -> Trade {
    let ev = UpdateTradeEventOnChain {
        trade_obj_addr: addr.to_string(),
        trader: trader.to_string(),
        trade_type: 1,
        token_from: "APT".to_string(),
        token_to: "USDC".to_string(),
        amount_from: "11".to_string(),
        amount_to: "21".to_string(),
        price: price.to_string(),
        status: 1,
        creation_timestamp: "1000".to_string(),
        last_update_timestamp: "1001".to_string(),
        notes: "updated".to_string(),
    };
    Trade::from_update_trade_event(&ev, idx)
}

fn complete_trade(addr: &str, trader: &str, idx: i64) -> Trade {
    let ev = CompleteTradeEventOnChain {
        trade_obj_addr: addr.to_string(),
        trader: trader.to_string(),
        trade_type: 1,
        token_from: "APT".to_string(),
        token_to: "USDC".to_string(),
        amount_from: "10".to_string(),
        amount_to: "20".to_string(),
        price: "100".to_string(),
        status: 2,
        creation_timestamp: "1000".to_string(),
        last_update_timestamp: "1002".to_string(),
        notes: "completed".to_string(),
    };
    Trade::from_complete_trade_event(&ev, idx)
}

fn cancel_trade(addr: &str, trader: &str, idx: i64) -> Trade {
    let ev = CancelTradeEventOnChain {
        trade_obj_addr: addr.to_string(),
        trader: trader.to_string(),
        trade_type: 1,
        token_from: "APT".to_string(),
        token_to: "USDC".to_string(),
        amount_from: "12".to_string(),
        amount_to: "22".to_string(),
        price: "102".to_string(),
        status: 3,
        creation_timestamp: "1000".to_string(),
        last_update_timestamp: "1003".to_string(),
        notes: "cancelled".to_string(),
    };
    Trade::from_cancel_trade_event(&ev, idx)
}

#[test]
fn end_to_end_trader_statistics() {
    // two buy creates at prices 100 and 50, then one completion: the trader's
    // totals reflect each rule exactly once.
    let storer = Storer::new(None);
    let mut db = Database::new();
    let events = vec![
        ContractEvent::CreateTradeEvent(create_trade("0xt1", "0xa", 1, "100", 0), 0),
        ContractEvent::CreateTradeEvent(create_trade("0xt2", "0xa", 1, "50", 1), 1),
        ContractEvent::CompleteTradeEvent(complete_trade("0xt1", "0xa", 2), 2),
    ];
    assert!(storer.process(&mut db, events).is_ok());
    assert_eq!(db.trades.len(), 2);
    assert_eq!(db.trader_stats.len(), 1);
    let s = &db.trader_stats[0];
    assert_eq!(s.trader_addr, "0xa");
    assert_eq!(s.total_trades, 2);
    assert_eq!(s.total_buy_trades, 2);
    assert_eq!(s.completed_trades, 1);
    assert_eq!(s.total_volume, 150);
    assert_eq!(s.points, 40);
    // the completed trade's row now carries the completion status
    let t1 = db.trades.iter().find(|t| t.trade_obj_addr == "0xt1").unwrap();
    assert_eq!(t1.status, 2);
}

#[test]
fn order_sensitive_fold_create_update_cancel() {
    // create, update, cancel for one trade address in one batch: the stored
    // row ends with the cancel's values, and the trader's statistics count
    // one create and one cancel, not one per intermediate state.
    let storer = Storer::new(None);
    let mut db = Database::new();
    let events = vec![
        ContractEvent::CreateTradeEvent(create_trade("0xt", "0xa", 1, "100", 0), 0),
        ContractEvent::UpdateTradeEvent(update_trade("0xt", "0xa", "101", 1), 1),
        ContractEvent::CancelTradeEvent(cancel_trade("0xt", "0xa", 2), 2),
    ];
    assert!(storer.process(&mut db, events).is_ok());
    assert_eq!(db.trades.len(), 1);
    let t = &db.trades[0];
    assert_eq!(t.status, 3);
    assert_eq!(t.amount_from, 12);
    assert_eq!(t.amount_to, 22);
    assert_eq!(t.price, 102);
    assert_eq!(t.notes, "cancelled");
    assert_eq!(t.last_update_timestamp, 1003);
    assert_eq!(t.last_update_event_idx, 2);
    // identity and creation data survive from the create
    assert_eq!(t.creation_timestamp, 1000);
    assert_eq!(t.trader_addr, "0xa");
    let s = &db.trader_stats[0];
    assert_eq!(s.total_trades, 1);
    assert_eq!(s.cancelled_trades, 1);
    assert_eq!(s.completed_trades, 0);
    assert_eq!(s.total_volume, 100);
    assert_eq!(s.points, 12);
}

#[test]
fn delta_applied_once_for_any_chunking() {
    // three creates for one trader split across three single-row chunks give
    // the same state as one big chunk: the delta rides in one chunk only.
    let events = vec![
        ContractEvent::CreateTradeEvent(create_trade("0xt1", "0xa", 1, "10", 0), 0),
        ContractEvent::CreateTradeEvent(create_trade("0xt2", "0xa", 2, "20", 1), 1),
        ContractEvent::CreateTradeEvent(create_trade("0xt3", "0xa", 3, "30", 2), 2),
    ];
    let chunked = Storer::new(Some(1));
    let mut db_small = Database::new();
    assert!(chunked.process(&mut db_small, events.clone()).is_ok());
    let whole = Storer::new(Some(100));
    let mut db_big = Database::new();
    assert!(whole.process(&mut db_big, events).is_ok());
    assert_eq!(db_small.trades, db_big.trades);
    assert_eq!(db_small.trader_stats, db_big.trader_stats);
    let s = &db_small.trader_stats[0];
    assert_eq!(s.total_trades, 3);
    assert_eq!(s.total_buy_trades, 1);
    assert_eq!(s.total_sell_trades, 1);
    assert_eq!(s.total_swap_trades, 1);
    assert_eq!(s.total_volume, 60);
    assert_eq!(s.points, 30);
}

#[test]
fn counter_overflow_fails_the_batch_loudly() {
    // a volume sum that leaves 64-bit range is a batch failure, and nothing
    // of the failed batch is applied.
    let mut db = Database::new();
    let events = vec![
        (create_trade("0xt1", "0xa", 1, &i64::MAX.to_string(), 0), 0),
        (create_trade("0xt2", "0xa", 1, "1", 1), 1),
    ];
    let r = process_create_trade_events(&mut db, 100, events);
    assert_eq!(r, Err(StoreError::CounterOverflow));
    assert!(db.trades.is_empty());
    assert!(db.trader_stats.is_empty());
}

#[test]
fn replaying_a_create_batch_keeps_rows_but_readds_deltas() {
    // row state is idempotent under replay: the same creates re-delivered do
    // not duplicate or change any trade row. The additive statistics merge is
    // the deliberate exception: a full replay adds the batch delta again.
    let storer = Storer::new(None);
    let mut db = Database::new();
    let events = vec![
        ContractEvent::CreateTradeEvent(create_trade("0xt1", "0xa", 1, "100", 0), 0),
        ContractEvent::CreateTradeEvent(create_trade("0xt2", "0xb", 2, "50", 1), 1),
    ];
    let replay = vec![
        ContractEvent::CreateTradeEvent(create_trade("0xt1", "0xa", 1, "100", 0), 0),
        ContractEvent::CreateTradeEvent(create_trade("0xt2", "0xb", 2, "50", 1), 1),
    ];
    assert!(storer.process(&mut db, events).is_ok());
    let trades_once = db.trades.clone();
    assert!(storer.process(&mut db, replay).is_ok());
    assert_eq!(db.trades, trades_once);
    assert_eq!(db.trader_stats.len(), 2);
    assert_eq!(db.trader_stats[0].points, 20);
}

#[test]
fn storer_defaults_and_name() {
    assert_eq!(Storer::new(None).chunk_size, 100);
    assert_eq!(Storer::new(Some(7)).chunk_size, 7);
    assert_eq!(Storer::new(Some(0)).chunk_size, 100);
    assert_eq!(Storer::new(None).name(), "Storer");
}
