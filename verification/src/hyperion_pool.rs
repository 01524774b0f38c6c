//! Liquidity-pool rows and their construction from pool events.
//!
//! Pool liquidity and sqrt-price can exceed 64-bit range, so those fields are
//! carried as opaque decimal strings and never parsed; only the small fields
//! (fee tier, tick spacing, tick, timestamps) go through the fixed-width
//! conversion boundary, each with its documented fallback.

use vstd::prelude::*;
use crate::numeric::{i32_or, i64_or};

verus! {

/// Fallback fee tier when the event's fee field is malformed: 0.3% in
/// parts-per-million.
pub const DEFAULT_FEE_TIER: i32 = 3000;

/// Fallback tick spacing when the event's field is malformed.
pub const DEFAULT_TICK_SPACING: i32 = 60;

/// One row of the hyperion_pools table.
#[derive(Clone, Debug, PartialEq)]
pub struct HyperionPool {
    pub pool_address: String,
    pub token0_address: String,
    pub token1_address: String,
    pub token0_symbol: String,
    pub token1_symbol: String,
    pub fee_tier: i32,
    pub tick_spacing: i32,
    pub liquidity: String,
    pub sqrt_price_x96: String,
    pub tick: i32,
    pub creation_timestamp: i64,
    pub last_update_timestamp: i64,
    pub last_update_version: i64,
}

/// A decoded pool-created event, fields still chain-encoded.
#[derive(Clone, Debug, PartialEq)]
pub struct PoolCreatedEventOnChain {
    pub pool_address: String,
    pub token0: String,
    pub token1: String,
    pub token0_symbol: String,
    pub token1_symbol: String,
    pub fee: String,
    pub tick_spacing: String,
    pub sqrt_price_x96: String,
    pub tick: String,
    pub timestamp: String,
}

/// A decoded pool-state-update event, fields still chain-encoded.
#[derive(Clone, Debug, PartialEq)]
pub struct PoolStateUpdateEventOnChain {
    pub pool_address: String,
    pub liquidity: String,
    pub sqrt_price_x96: String,
    pub tick: String,
    pub timestamp: String,
}

impl HyperionPool {
    /// An owned copy that verified code can reason about, field by field.
    pub fn duplicate(&self) -> (r: HyperionPool)
        ensures
            r == *self,
    {
        HyperionPool {
            pool_address: self.pool_address.clone(),
            token0_address: self.token0_address.clone(),
            token1_address: self.token1_address.clone(),
            token0_symbol: self.token0_symbol.clone(),
            token1_symbol: self.token1_symbol.clone(),
            fee_tier: self.fee_tier,
            tick_spacing: self.tick_spacing,
            liquidity: self.liquidity.clone(),
            sqrt_price_x96: self.sqrt_price_x96.clone(),
            tick: self.tick,
            creation_timestamp: self.creation_timestamp,
            last_update_timestamp: self.last_update_timestamp,
            last_update_version: self.last_update_version,
        }
    }

    /// Builds the row a pool-created event stands for; liquidity starts at
    /// zero until the first state update reports it.
    pub fn from_pool_created_event(event: &PoolCreatedEventOnChain, tx_version: i64) -> (r:
        HyperionPool)
        ensures
            r.pool_address == event.pool_address,
            r.token0_address == event.token0,
            r.token1_address == event.token1,
            r.token0_symbol == event.token0_symbol,
            r.token1_symbol == event.token1_symbol,
            r.fee_tier as int == i32_or(event.fee@, DEFAULT_FEE_TIER as int),
            r.tick_spacing as int == i32_or(event.tick_spacing@, DEFAULT_TICK_SPACING as int),
            r.liquidity@ == "0"@,
            r.sqrt_price_x96 == event.sqrt_price_x96,
            r.tick as int == i32_or(event.tick@, 0),
            r.creation_timestamp as int == i64_or(event.timestamp@, 0),
            r.last_update_timestamp as int == i64_or(event.timestamp@, 0),
            r.last_update_version == tx_version,
    {
        HyperionPool {
            pool_address: event.pool_address.clone(),
            token0_address: event.token0.clone(),
            token1_address: event.token1.clone(),
            token0_symbol: event.token0_symbol.clone(),
            token1_symbol: event.token1_symbol.clone(),
            fee_tier: crate::numeric::parse_i32_or(event.fee.as_str(), DEFAULT_FEE_TIER),
            tick_spacing: crate::numeric::parse_i32_or(
                event.tick_spacing.as_str(),
                DEFAULT_TICK_SPACING,
            ),
            liquidity: "0".to_owned(),
            sqrt_price_x96: event.sqrt_price_x96.clone(),
            tick: crate::numeric::parse_i32_or(event.tick.as_str(), 0),
            creation_timestamp: crate::numeric::parse_i64_or(event.timestamp.as_str(), 0),
            last_update_timestamp: crate::numeric::parse_i64_or(event.timestamp.as_str(), 0),
            last_update_version: tx_version,
        }
    }

    /// Overwrites the point-in-time pool state with what a state-update event
    /// reports; identity and creation fields stay as they are.
    pub fn update_from_state_event(&mut self, event: &PoolStateUpdateEventOnChain, tx_version: i64)
        ensures
            final(self).liquidity == event.liquidity,
            final(self).sqrt_price_x96 == event.sqrt_price_x96,
            final(self).tick as int == i32_or(event.tick@, 0),
            final(self).last_update_timestamp as int == i64_or(event.timestamp@, 0),
            final(self).last_update_version == tx_version,
            final(self).pool_address == old(self).pool_address,
            final(self).token0_address == old(self).token0_address,
            final(self).token1_address == old(self).token1_address,
            final(self).token0_symbol == old(self).token0_symbol,
            final(self).token1_symbol == old(self).token1_symbol,
            final(self).fee_tier == old(self).fee_tier,
            final(self).tick_spacing == old(self).tick_spacing,
            final(self).creation_timestamp == old(self).creation_timestamp,
    {
        self.liquidity = event.liquidity.clone();
        self.sqrt_price_x96 = event.sqrt_price_x96.clone();
        self.tick = crate::numeric::parse_i32_or(event.tick.as_str(), 0);
        self.last_update_timestamp = crate::numeric::parse_i64_or(event.timestamp.as_str(), 0);
        self.last_update_version = tx_version;
    }
}

} // verus!
