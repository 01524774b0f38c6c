//! Trade rows and their construction from decoded on-chain trade events.
//!
//! Each event variant carries every numeric field as a decimal string; the
//! constructors here are the only place those strings are interpreted, with a
//! fallback of zero on malformed input.

use vstd::prelude::*;
use crate::numeric::i64_or;

verus! {

/// One row of the trades table.
#[derive(Clone, Debug, PartialEq)]
pub struct Trade {
    pub trade_obj_addr: String,
    pub trader_addr: String,
    pub trade_type: i16,
    pub token_from: String,
    pub token_to: String,
    pub amount_from: i64,
    pub amount_to: i64,
    pub price: i64,
    pub status: i16,
    pub creation_timestamp: i64,
    pub last_update_timestamp: i64,
    pub last_update_event_idx: i64,
    pub notes: String,
}

/// A decoded trade-created event, fields still chain-encoded.
#[derive(Clone, Debug, PartialEq)]
pub struct CreateTradeEventOnChain {
    pub trade_obj_addr: String,
    pub trader: String,
    pub trade_type: u8,
    pub token_from: String,
    pub token_to: String,
    pub amount_from: String,
    pub amount_to: String,
    pub price: String,
    pub status: u8,
    pub creation_timestamp: String,
    pub last_update_timestamp: String,
    pub notes: String,
}

/// A decoded trade-updated event, fields still chain-encoded.
#[derive(Clone, Debug, PartialEq)]
pub struct UpdateTradeEventOnChain {
    pub trade_obj_addr: String,
    pub trader: String,
    pub trade_type: u8,
    pub token_from: String,
    pub token_to: String,
    pub amount_from: String,
    pub amount_to: String,
    pub price: String,
    pub status: u8,
    pub creation_timestamp: String,
    pub last_update_timestamp: String,
    pub notes: String,
}

/// A decoded trade-completed event, fields still chain-encoded.
#[derive(Clone, Debug, PartialEq)]
pub struct CompleteTradeEventOnChain {
    pub trade_obj_addr: String,
    pub trader: String,
    pub trade_type: u8,
    pub token_from: String,
    pub token_to: String,
    pub amount_from: String,
    pub amount_to: String,
    pub price: String,
    pub status: u8,
    pub creation_timestamp: String,
    pub last_update_timestamp: String,
    pub notes: String,
}

/// A decoded trade-cancelled event, fields still chain-encoded.
#[derive(Clone, Debug, PartialEq)]
pub struct CancelTradeEventOnChain {
    pub trade_obj_addr: String,
    pub trader: String,
    pub trade_type: u8,
    pub token_from: String,
    pub token_to: String,
    pub amount_from: String,
    pub amount_to: String,
    pub price: String,
    pub status: u8,
    pub creation_timestamp: String,
    pub last_update_timestamp: String,
    pub notes: String,
}

impl Trade {
    /// An owned copy that verified code can reason about, field by field.
    pub fn duplicate(&self) -> (r: Trade)
        ensures
            r == *self,
    {
        Trade {
            trade_obj_addr: self.trade_obj_addr.clone(),
            trader_addr: self.trader_addr.clone(),
            trade_type: self.trade_type,
            token_from: self.token_from.clone(),
            token_to: self.token_to.clone(),
            amount_from: self.amount_from,
            amount_to: self.amount_to,
            price: self.price,
            status: self.status,
            creation_timestamp: self.creation_timestamp,
            last_update_timestamp: self.last_update_timestamp,
            last_update_event_idx: self.last_update_event_idx,
            notes: self.notes.clone(),
        }
    }

    /// Builds the row a trade-created event stands for.
    pub fn from_create_trade_event(event: &CreateTradeEventOnChain, event_index: i64) -> (r: Trade)
        ensures
            r.trade_obj_addr == event.trade_obj_addr,
            r.trader_addr == event.trader,
            r.trade_type as int == event.trade_type as int,
            r.token_from == event.token_from,
            r.token_to == event.token_to,
            r.amount_from as int == i64_or(event.amount_from@, 0),
            r.amount_to as int == i64_or(event.amount_to@, 0),
            r.price as int == i64_or(event.price@, 0),
            r.status as int == event.status as int,
            r.creation_timestamp as int == i64_or(event.creation_timestamp@, 0),
            r.last_update_timestamp as int == i64_or(event.last_update_timestamp@, 0),
            r.last_update_event_idx == event_index,
            r.notes == event.notes,
    {
        Trade {
            trade_obj_addr: event.trade_obj_addr.clone(),
            trader_addr: event.trader.clone(),
            trade_type: event.trade_type as i16,
            token_from: event.token_from.clone(),
            token_to: event.token_to.clone(),
            amount_from: crate::numeric::parse_i64_or(event.amount_from.as_str(), 0),
            amount_to: crate::numeric::parse_i64_or(event.amount_to.as_str(), 0),
            price: crate::numeric::parse_i64_or(event.price.as_str(), 0),
            status: event.status as i16,
            creation_timestamp: crate::numeric::parse_i64_or(event.creation_timestamp.as_str(), 0),
            last_update_timestamp: crate::numeric::parse_i64_or(
                event.last_update_timestamp.as_str(),
                0,
            ),
            last_update_event_idx: event_index,
            notes: event.notes.clone(),
        }
    }

    /// Builds the row a trade-updated event stands for.
    pub fn from_update_trade_event(event: &UpdateTradeEventOnChain, event_index: i64) -> (r: Trade)
        ensures
            r.trade_obj_addr == event.trade_obj_addr,
            r.trader_addr == event.trader,
            r.trade_type as int == event.trade_type as int,
            r.token_from == event.token_from,
            r.token_to == event.token_to,
            r.amount_from as int == i64_or(event.amount_from@, 0),
            r.amount_to as int == i64_or(event.amount_to@, 0),
            r.price as int == i64_or(event.price@, 0),
            r.status as int == event.status as int,
            r.creation_timestamp as int == i64_or(event.creation_timestamp@, 0),
            r.last_update_timestamp as int == i64_or(event.last_update_timestamp@, 0),
            r.last_update_event_idx == event_index,
            r.notes == event.notes,
    {
        Trade {
            trade_obj_addr: event.trade_obj_addr.clone(),
            trader_addr: event.trader.clone(),
            trade_type: event.trade_type as i16,
            token_from: event.token_from.clone(),
            token_to: event.token_to.clone(),
            amount_from: crate::numeric::parse_i64_or(event.amount_from.as_str(), 0),
            amount_to: crate::numeric::parse_i64_or(event.amount_to.as_str(), 0),
            price: crate::numeric::parse_i64_or(event.price.as_str(), 0),
            status: event.status as i16,
            creation_timestamp: crate::numeric::parse_i64_or(event.creation_timestamp.as_str(), 0),
            last_update_timestamp: crate::numeric::parse_i64_or(
                event.last_update_timestamp.as_str(),
                0,
            ),
            last_update_event_idx: event_index,
            notes: event.notes.clone(),
        }
    }

    /// Builds the row a trade-completed event stands for.
    pub fn from_complete_trade_event(event: &CompleteTradeEventOnChain, event_index: i64) -> (r:
        Trade)
        ensures
            r.trade_obj_addr == event.trade_obj_addr,
            r.trader_addr == event.trader,
            r.trade_type as int == event.trade_type as int,
            r.token_from == event.token_from,
            r.token_to == event.token_to,
            r.amount_from as int == i64_or(event.amount_from@, 0),
            r.amount_to as int == i64_or(event.amount_to@, 0),
            r.price as int == i64_or(event.price@, 0),
            r.status as int == event.status as int,
            r.creation_timestamp as int == i64_or(event.creation_timestamp@, 0),
            r.last_update_timestamp as int == i64_or(event.last_update_timestamp@, 0),
            r.last_update_event_idx == event_index,
            r.notes == event.notes,
    {
        Trade {
            trade_obj_addr: event.trade_obj_addr.clone(),
            trader_addr: event.trader.clone(),
            trade_type: event.trade_type as i16,
            token_from: event.token_from.clone(),
            token_to: event.token_to.clone(),
            amount_from: crate::numeric::parse_i64_or(event.amount_from.as_str(), 0),
            amount_to: crate::numeric::parse_i64_or(event.amount_to.as_str(), 0),
            price: crate::numeric::parse_i64_or(event.price.as_str(), 0),
            status: event.status as i16,
            creation_timestamp: crate::numeric::parse_i64_or(event.creation_timestamp.as_str(), 0),
            last_update_timestamp: crate::numeric::parse_i64_or(
                event.last_update_timestamp.as_str(),
                0,
            ),
            last_update_event_idx: event_index,
            notes: event.notes.clone(),
        }
    }

    /// Builds the row a trade-cancelled event stands for.
    pub fn from_cancel_trade_event(event: &CancelTradeEventOnChain, event_index: i64) -> (r: Trade)
        ensures
            r.trade_obj_addr == event.trade_obj_addr,
            r.trader_addr == event.trader,
            r.trade_type as int == event.trade_type as int,
            r.token_from == event.token_from,
            r.token_to == event.token_to,
            r.amount_from as int == i64_or(event.amount_from@, 0),
            r.amount_to as int == i64_or(event.amount_to@, 0),
            r.price as int == i64_or(event.price@, 0),
            r.status as int == event.status as int,
            r.creation_timestamp as int == i64_or(event.creation_timestamp@, 0),
            r.last_update_timestamp as int == i64_or(event.last_update_timestamp@, 0),
            r.last_update_event_idx == event_index,
            r.notes == event.notes,
    {
        Trade {
            trade_obj_addr: event.trade_obj_addr.clone(),
            trader_addr: event.trader.clone(),
            trade_type: event.trade_type as i16,
            token_from: event.token_from.clone(),
            token_to: event.token_to.clone(),
            amount_from: crate::numeric::parse_i64_or(event.amount_from.as_str(), 0),
            amount_to: crate::numeric::parse_i64_or(event.amount_to.as_str(), 0),
            price: crate::numeric::parse_i64_or(event.price.as_str(), 0),
            status: event.status as i16,
            creation_timestamp: crate::numeric::parse_i64_or(event.creation_timestamp.as_str(), 0),
            last_update_timestamp: crate::numeric::parse_i64_or(
                event.last_update_timestamp.as_str(),
                0,
            ),
            last_update_event_idx: event_index,
            notes: event.notes.clone(),
        }
    }
}

} // verus!
