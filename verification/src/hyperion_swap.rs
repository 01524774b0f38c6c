//! Swap rows, keyed by a composite id that makes replay naturally idempotent.

use vstd::prelude::*;
use vstd::string::StringExecFns;
use crate::numeric::{i64_repr, i64_or};

verus! {

/// The deterministic swap id: pool address, stream version and in-transaction
/// event index, hyphen separated. Replaying the same event rebuilds the same
/// id, so the store's do-nothing rule on an id collision absorbs it.
pub open spec fn swap_id_spec(pool: Seq<char>, tx_version: int, event_idx: int) -> Seq<char> {
    pool + seq!['-'] + i64_repr(tx_version) + seq!['-'] + i64_repr(event_idx)
}

/// One row of the hyperion_swaps table.
#[derive(Clone, Debug, PartialEq)]
pub struct HyperionSwap {
    pub swap_id: String,
    pub pool_address: String,
    pub sender: String,
    pub recipient: String,
    pub token_in: String,
    pub token_out: String,
    pub amount_in: String,
    pub amount_out: String,
    pub sqrt_price_x96_after: String,
    pub liquidity_after: String,
    pub tick_after: i32,
    pub tx_version: i64,
    pub event_idx: i64,
    pub timestamp: i64,
}

/// A decoded swap event, fields still chain-encoded. Amounts, price and
/// liquidity may exceed 64-bit range and stay strings.
#[derive(Clone, Debug, PartialEq)]
pub struct SwapEventOnChain {
    pub pool: String,
    pub sender: String,
    pub recipient: String,
    pub token_in: String,
    pub token_out: String,
    pub amount_in: String,
    pub amount_out: String,
    pub sqrt_price_x96: String,
    pub liquidity: String,
    pub tick: String,
    pub timestamp: String,
}

impl HyperionSwap {
    /// An owned copy that verified code can reason about, field by field.
    pub fn duplicate(&self) -> (r: HyperionSwap)
        ensures
            r == *self,
    {
        HyperionSwap {
            swap_id: self.swap_id.clone(),
            pool_address: self.pool_address.clone(),
            sender: self.sender.clone(),
            recipient: self.recipient.clone(),
            token_in: self.token_in.clone(),
            token_out: self.token_out.clone(),
            amount_in: self.amount_in.clone(),
            amount_out: self.amount_out.clone(),
            sqrt_price_x96_after: self.sqrt_price_x96_after.clone(),
            liquidity_after: self.liquidity_after.clone(),
            tick_after: self.tick_after,
            tx_version: self.tx_version,
            event_idx: self.event_idx,
            timestamp: self.timestamp,
        }
    }

    /// Builds the row a swap event stands for, with its composite id.
    pub fn from_swap_event(event: &SwapEventOnChain, tx_version: i64, event_idx: i64) -> (r:
        HyperionSwap)
        ensures
            r.swap_id@ == swap_id_spec(event.pool@, tx_version as int, event_idx as int),
            r.pool_address == event.pool,
            r.sender == event.sender,
            r.recipient == event.recipient,
            r.token_in == event.token_in,
            r.token_out == event.token_out,
            r.amount_in == event.amount_in,
            r.amount_out == event.amount_out,
            r.sqrt_price_x96_after == event.sqrt_price_x96,
            r.liquidity_after == event.liquidity,
            r.tick_after as int == crate::numeric::i32_or(event.tick@, 0),
            r.tx_version == tx_version,
            r.event_idx == event_idx,
            r.timestamp as int == i64_or(event.timestamp@, 0),
    {
        let mut swap_id: String = event.pool.clone();
        swap_id.append("-");
        let version_digits: String = crate::numeric::render_i64(tx_version);
        swap_id.append(version_digits.as_str());
        swap_id.append("-");
        let idx_digits: String = crate::numeric::render_i64(event_idx);
        swap_id.append(idx_digits.as_str());
        proof {
            reveal_strlit("-");
            assert(swap_id@ =~= swap_id_spec(event.pool@, tx_version as int, event_idx as int));
        }
        HyperionSwap {
            swap_id,
            pool_address: event.pool.clone(),
            sender: event.sender.clone(),
            recipient: event.recipient.clone(),
            token_in: event.token_in.clone(),
            token_out: event.token_out.clone(),
            amount_in: event.amount_in.clone(),
            amount_out: event.amount_out.clone(),
            sqrt_price_x96_after: event.sqrt_price_x96.clone(),
            liquidity_after: event.liquidity.clone(),
            tick_after: crate::numeric::parse_i32_or(event.tick.as_str(), 0),
            tx_version,
            event_idx,
            timestamp: crate::numeric::parse_i64_or(event.timestamp.as_str(), 0),
        }
    }
}

} // verus!
