//! Per-trader cumulative statistics.
//!
//! Inside one batch a `TraderStat` is a delta relative to whatever storage
//! already holds: the aggregation starts every counter at zero and each event
//! applies its increment rule. The store later merges the delta additively on
//! a key collision, so the same rules describe both the accumulator and the
//! stored row.

use vstd::prelude::*;

verus! {

/// Points awarded for creating a trade.
pub const CREATE_TRADE_POINTS: i64 = 10;

/// Points awarded for updating a trade.
pub const UPDATE_TRADE_POINTS: i64 = 2;

/// Points awarded for completing a trade.
pub const COMPLETE_TRADE_POINTS: i64 = 20;

/// One row of the trader_stats table, or one batch delta for it.
#[derive(Clone, Debug, PartialEq)]
pub struct TraderStat {
    pub trader_addr: String,
    pub creation_timestamp: i64,
    pub last_update_timestamp: i64,
    pub total_trades: i64,
    pub completed_trades: i64,
    pub cancelled_trades: i64,
    pub total_buy_trades: i64,
    pub total_sell_trades: i64,
    pub total_swap_trades: i64,
    pub total_volume: i64,
    pub points: i64,
}

/// The fresh accumulator for a trader first touched at `timestamp`.
pub open spec fn fresh_stat(s: TraderStat, trader_addr: Seq<char>, timestamp: int) -> bool {
    &&& s.trader_addr@ == trader_addr
    &&& s.creation_timestamp == timestamp
    &&& s.last_update_timestamp == timestamp
    &&& s.total_trades == 0
    &&& s.completed_trades == 0
    &&& s.cancelled_trades == 0
    &&& s.total_buy_trades == 0
    &&& s.total_sell_trades == 0
    &&& s.total_swap_trades == 0
    &&& s.total_volume == 0
    &&& s.points == 0
}

/// The create rule leaves every counter in `i64` range.
pub open spec fn inc_create_fits(s: TraderStat, price: int) -> bool {
    &&& s.total_trades + 1 <= i64::MAX
    &&& s.total_buy_trades + 1 <= i64::MAX
    &&& s.total_sell_trades + 1 <= i64::MAX
    &&& s.total_swap_trades + 1 <= i64::MAX
    &&& i64::MIN <= s.total_volume + price <= i64::MAX
    &&& s.points + CREATE_TRADE_POINTS <= i64::MAX
}

/// The increment rule for a trade-created event: one more trade of its kind,
/// its price added to volume, the creation award added to points.
pub open spec fn inc_create(s: TraderStat, trade_type: int, price: int, timestamp: int)
    -> TraderStat {
    TraderStat {
        total_trades: (s.total_trades + 1) as i64,
        total_buy_trades: if trade_type == 1 {
            (s.total_buy_trades + 1) as i64
        } else {
            s.total_buy_trades
        },
        total_sell_trades: if trade_type == 2 {
            (s.total_sell_trades + 1) as i64
        } else {
            s.total_sell_trades
        },
        total_swap_trades: if trade_type == 3 {
            (s.total_swap_trades + 1) as i64
        } else {
            s.total_swap_trades
        },
        total_volume: (s.total_volume + price) as i64,
        points: (s.points + CREATE_TRADE_POINTS) as i64,
        last_update_timestamp: timestamp as i64,
        ..s
    }
}

pub open spec fn inc_update_fits(s: TraderStat) -> bool {
    s.points + UPDATE_TRADE_POINTS <= i64::MAX
}

/// The increment rule for a trade-updated event: a small point award and a
/// fresh timestamp, nothing else.
pub open spec fn inc_update(s: TraderStat, timestamp: int) -> TraderStat {
    TraderStat {
        points: (s.points + UPDATE_TRADE_POINTS) as i64,
        last_update_timestamp: timestamp as i64,
        ..s
    }
}

pub open spec fn inc_complete_fits(s: TraderStat) -> bool {
    &&& s.completed_trades + 1 <= i64::MAX
    &&& s.points + COMPLETE_TRADE_POINTS <= i64::MAX
}

/// The increment rule for a trade-completed event: one more completed trade
/// and the completion award.
pub open spec fn inc_complete(s: TraderStat, timestamp: int) -> TraderStat {
    TraderStat {
        completed_trades: (s.completed_trades + 1) as i64,
        points: (s.points + COMPLETE_TRADE_POINTS) as i64,
        last_update_timestamp: timestamp as i64,
        ..s
    }
}

pub open spec fn inc_cancel_fits(s: TraderStat) -> bool {
    s.cancelled_trades + 1 <= i64::MAX
}

/// The increment rule for a trade-cancelled event: one more cancelled trade,
/// no point award.
pub open spec fn inc_cancel(s: TraderStat, timestamp: int) -> TraderStat {
    TraderStat {
        cancelled_trades: (s.cancelled_trades + 1) as i64,
        last_update_timestamp: timestamp as i64,
        ..s
    }
}

impl TraderStat {
    /// An owned copy that verified code can reason about, field by field.
    pub fn duplicate(&self) -> (r: TraderStat)
        ensures
            r == *self,
    {
        TraderStat {
            trader_addr: self.trader_addr.clone(),
            creation_timestamp: self.creation_timestamp,
            last_update_timestamp: self.last_update_timestamp,
            total_trades: self.total_trades,
            completed_trades: self.completed_trades,
            cancelled_trades: self.cancelled_trades,
            total_buy_trades: self.total_buy_trades,
            total_sell_trades: self.total_sell_trades,
            total_swap_trades: self.total_swap_trades,
            total_volume: self.total_volume,
            points: self.points,
        }
    }

    /// The zeroed accumulator for a trader first touched at `timestamp`.
    pub fn new(trader_addr: String, timestamp: i64) -> (s: TraderStat)
        ensures
            fresh_stat(s, trader_addr@, timestamp as int),
            s == (TraderStat {
                trader_addr,
                creation_timestamp: timestamp,
                last_update_timestamp: timestamp,
                total_trades: 0,
                completed_trades: 0,
                cancelled_trades: 0,
                total_buy_trades: 0,
                total_sell_trades: 0,
                total_swap_trades: 0,
                total_volume: 0,
                points: 0,
            }),
    {
        TraderStat {
            trader_addr,
            creation_timestamp: timestamp,
            last_update_timestamp: timestamp,
            total_trades: 0,
            completed_trades: 0,
            cancelled_trades: 0,
            total_buy_trades: 0,
            total_sell_trades: 0,
            total_swap_trades: 0,
            total_volume: 0,
            points: 0,
        }
    }

    /// Applies the create rule in place.
    pub fn increment_create_trade(&mut self, trade_type: i16, price: i64, timestamp: i64)
        requires
            inc_create_fits(*old(self), price as int),
        ensures
            *final(self) == inc_create(
                *old(self),
                trade_type as int,
                price as int,
                timestamp as int,
            ),
    {
        self.total_trades = self.total_trades + 1;
        if trade_type == 1 {
            self.total_buy_trades = self.total_buy_trades + 1;
        } else if trade_type == 2 {
            self.total_sell_trades = self.total_sell_trades + 1;
        } else if trade_type == 3 {
            self.total_swap_trades = self.total_swap_trades + 1;
        }
        self.total_volume = self.total_volume + price;
        self.points = self.points + CREATE_TRADE_POINTS;
        self.last_update_timestamp = timestamp;
    }

    /// Applies the update rule in place.
    pub fn increment_update_trade(&mut self, timestamp: i64)
        requires
            inc_update_fits(*old(self)),
        ensures
            *final(self) == inc_update(*old(self), timestamp as int),
    {
        self.points = self.points + UPDATE_TRADE_POINTS;
        self.last_update_timestamp = timestamp;
    }

    /// Applies the complete rule in place.
    pub fn increment_complete_trade(&mut self, timestamp: i64)
        requires
            inc_complete_fits(*old(self)),
        ensures
            *final(self) == inc_complete(*old(self), timestamp as int),
    {
        self.completed_trades = self.completed_trades + 1;
        self.points = self.points + COMPLETE_TRADE_POINTS;
        self.last_update_timestamp = timestamp;
    }

    /// Applies the cancel rule in place.
    pub fn increment_cancel_trade(&mut self, timestamp: i64)
        requires
            inc_cancel_fits(*old(self)),
        ensures
            *final(self) == inc_cancel(*old(self), timestamp as int),
    {
        self.cancelled_trades = self.cancelled_trades + 1;
        self.last_update_timestamp = timestamp;
    }
}

} // verus!
