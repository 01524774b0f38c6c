//! Rolling per-pool swap statistics.
//!
//! Monetary figures are decimal strings. A price oracle and floating point
//! are out of scope, so every derived figure uses exact integer arithmetic
//! in millionths: the swap fee is
//! `amount_in * fee_tier / 1_000_000` rounded down, and the last price is
//! `amount_out / amount_in` rendered with six fraction digits. An amount that
//! does not fit the 128-bit fast path falls back to zero for these two
//! derived fields, in line with the conversion boundary's fallback policy;
//! the volume sum itself is exact decimal-string addition at any size.

use vstd::prelude::*;
use vstd::arithmetic::div_mod::{lemma_fundamental_div_mod, lemma_mod_bound};
use vstd::string::StringExecFns;
use crate::numeric::{
    dec_add_str, dec_or_zero, dec_repr, digits_of_u128, lemma_canonical_repr, lemma_dec_repr_val,
    chars_of, render_u128, string_of_digits, u128_or_zero, parse_u128_or_zero,
};

verus! {

/// The fee charged on one swap, in the same unit as `amount_in`: the amount
/// times the fee tier in parts-per-million, rounded down. Zero when the
/// amount is malformed or the product leaves 128-bit range.
pub open spec fn swap_fee(amount_in: Seq<char>, fee_tier: int) -> nat {
    let a = u128_or_zero(amount_in);
    if 0 <= fee_tier && a * fee_tier <= u128::MAX {
        ((a * fee_tier) / 1000000) as nat
    } else {
        0
    }
}

/// Six zero-padded fraction digits of a value below one million.
pub open spec fn frac6(f: nat) -> Seq<char> {
    dec_repr((f + 1000000) as nat).skip(1)
}

/// A price in millionths, rendered with six fraction digits.
pub open spec fn price_repr(q: nat) -> Seq<char> {
    dec_repr(q / 1000000) + seq!['.'] + frac6(q % 1000000)
}

/// The swap's price in millionths: `amount_out / amount_in`, when the input
/// amount is positive and the scaled numerator fits 128 bits.
pub open spec fn price_micro(amount_in: Seq<char>, amount_out: Seq<char>) -> Option<nat> {
    let ain = u128_or_zero(amount_in);
    let aout = u128_or_zero(amount_out);
    if ain > 0 && aout * 1000000 <= u128::MAX {
        Some(((aout * 1000000) / ain) as nat)
    } else {
        None
    }
}

/// The mathematical content of a pool-stat row: every string by its
/// characters. Fresh rows are built at run time, so contracts about this
/// table speak of views.
pub struct PoolStatView {
    pub pool_address: Seq<char>,
    pub tvl_usd: Seq<char>,
    pub volume_24h: Seq<char>,
    pub volume_7d: Seq<char>,
    pub fees_24h: Seq<char>,
    pub fees_7d: Seq<char>,
    pub apr: Seq<char>,
    pub swap_count_24h: int,
    pub swap_count_7d: int,
    pub unique_traders_24h: int,
    pub unique_traders_7d: int,
    pub last_price: Seq<char>,
    pub price_change_24h: Seq<char>,
    pub last_update_timestamp: int,
}

/// One row of the hyperion_pool_stats table, or one batch snapshot for it.
#[derive(Clone, Debug, PartialEq)]
pub struct HyperionPoolStat {
    pub pool_address: String,
    pub tvl_usd: String,
    pub volume_24h: String,
    pub volume_7d: String,
    pub fees_24h: String,
    pub fees_7d: String,
    pub apr: String,
    pub swap_count_24h: i64,
    pub swap_count_7d: i64,
    pub unique_traders_24h: i64,
    pub unique_traders_7d: i64,
    pub last_price: String,
    pub price_change_24h: String,
    pub last_update_timestamp: i64,
}

impl View for HyperionPoolStat {
    type V = PoolStatView;

    open spec fn view(&self) -> PoolStatView {
        PoolStatView {
            pool_address: self.pool_address@,
            tvl_usd: self.tvl_usd@,
            volume_24h: self.volume_24h@,
            volume_7d: self.volume_7d@,
            fees_24h: self.fees_24h@,
            fees_7d: self.fees_7d@,
            apr: self.apr@,
            swap_count_24h: self.swap_count_24h as int,
            swap_count_7d: self.swap_count_7d as int,
            unique_traders_24h: self.unique_traders_24h as int,
            unique_traders_7d: self.unique_traders_7d as int,
            last_price: self.last_price@,
            price_change_24h: self.price_change_24h@,
            last_update_timestamp: self.last_update_timestamp as int,
        }
    }
}

/// Renders a millionths-scaled value as a decimal number with six fraction
/// digits.
pub fn render_price(q: u128) -> (r: String)
    ensures
        r@ == price_repr(q as nat),
{
    let mut r: String = render_u128(q / 1000000);
    r.append(".");
    let f: u128 = q % 1000000;
    let mut ds: Vec<u8> = digits_of_u128(f + 1000000);
    proof {
        lemma_canonical_repr(ds@);
    }
    let ghost whole_ds = ds@;
    ds.remove(0);
    proof {
        assert(ds@ =~= whole_ds.skip(1));
        assert(chars_of(ds@) =~= chars_of(whole_ds).skip(1));
    }
    let frac_str: String = string_of_digits(&ds);
    r.append(frac_str.as_str());
    proof {
        reveal_strlit(".");
        assert(r@ =~= price_repr(q as nat));
    }
    r
}

/// Computes the swap fee on the 128-bit fast path.
pub fn compute_swap_fee(amount_in: &str, fee_tier: i32) -> (fee: u128)
    ensures
        fee as nat == swap_fee(amount_in@, fee_tier as int),
{
    let ain: u128 = parse_u128_or_zero(amount_in);
    if fee_tier > 0 {
        let ft: u128 = fee_tier as u128;
        if ain <= u128::MAX / ft {
            proof {
                let cap = u128::MAX as int;
                let f = ft as int;
                let an = ain as int;
                lemma_fundamental_div_mod(cap, f);
                assert(cap == f * (cap / f) + cap % f);
                assert(an * f <= (cap / f) * f) by (nonlinear_arith)
                    requires
                        an <= cap / f,
                        f >= 1,
                ;
                assert((cap / f) * f <= cap);
                assert(ain as nat * (fee_tier as int) <= u128::MAX);
                assert(u128_or_zero(amount_in@) == ain as nat);
                assert(swap_fee(amount_in@, fee_tier as int) == ((ain as nat * (fee_tier as int))
                    / 1000000) as nat);
            }
            let fee_fast: u128 = (ain * ft) / 1000000;
            proof {
                assert(ft as int == fee_tier as int);
                assert(fee_fast as nat == ((ain as nat * (fee_tier as int)) / 1000000) as nat);
            }
            fee_fast
        } else {
            proof {
                let cap = u128::MAX as int;
                let f = ft as int;
                let an = ain as int;
                lemma_fundamental_div_mod(cap, f);
                lemma_mod_bound(cap, f);
                assert(cap == f * (cap / f) + cap % f);
                assert(an * f >= (cap / f + 1) * f) by (nonlinear_arith)
                    requires
                        an >= cap / f + 1,
                        f >= 1,
                ;
                assert(an * f > cap) by (nonlinear_arith)
                    requires
                        an * f >= (cap / f + 1) * f,
                        cap == f * (cap / f) + cap % f,
                        cap % f < f,
                        f >= 1,
                ;
                assert(ft as int == fee_tier as int);
                assert(ain as nat * (fee_tier as int) > u128::MAX);
                assert(swap_fee(amount_in@, fee_tier as int) == 0);
            }
            0
        }
    } else {
        proof {
            if fee_tier == 0 {
                assert(u128_or_zero(amount_in@) * (fee_tier as int) == 0);
                assert(swap_fee(amount_in@, fee_tier as int) == 0);
            } else {
                assert(swap_fee(amount_in@, fee_tier as int) == 0);
            }
        }
        0
    }
}

/// Computes the millionths-scaled price on the 128-bit fast path.
pub fn compute_price_micro(amount_in: &str, amount_out: &str) -> (r: Option<u128>)
    ensures
        match price_micro(amount_in@, amount_out@) {
            Some(q) => r is Some && r.unwrap() as nat == q,
            None => r is None,
        },
{
    let ain: u128 = parse_u128_or_zero(amount_in);
    let aout: u128 = parse_u128_or_zero(amount_out);
    if ain > 0 {
        if aout <= u128::MAX / 1000000 {
            proof {
                let cap = u128::MAX as int;
                let ao = aout as int;
                assert(cap == 1000000 * (cap / 1000000) + cap % 1000000);
                assert(ao * 1000000 <= (cap / 1000000) * 1000000) by (nonlinear_arith)
                    requires
                        ao <= cap / 1000000,
                ;
                assert((cap / 1000000) * 1000000 <= cap);
            }
            Some((aout * 1000000) / ain)
        } else {
            proof {
                let cap = u128::MAX as int;
                let ao = aout as int;
                assert(cap == 1000000 * (cap / 1000000) + cap % 1000000);
                assert(ao * 1000000 >= (cap / 1000000 + 1) * 1000000) by (nonlinear_arith)
                    requires
                        ao >= cap / 1000000 + 1,
                ;
                assert(ao * 1000000 > cap);
            }
            None
        }
    } else {
        None
    }
}

impl HyperionPoolStat {
    /// An owned copy that verified code can reason about, field by field.
    pub fn duplicate(&self) -> (r: HyperionPoolStat)
        ensures
            r == *self,
    {
        HyperionPoolStat {
            pool_address: self.pool_address.clone(),
            tvl_usd: self.tvl_usd.clone(),
            volume_24h: self.volume_24h.clone(),
            volume_7d: self.volume_7d.clone(),
            fees_24h: self.fees_24h.clone(),
            fees_7d: self.fees_7d.clone(),
            apr: self.apr.clone(),
            swap_count_24h: self.swap_count_24h,
            swap_count_7d: self.swap_count_7d,
            unique_traders_24h: self.unique_traders_24h,
            unique_traders_7d: self.unique_traders_7d,
            last_price: self.last_price.clone(),
            price_change_24h: self.price_change_24h.clone(),
            last_update_timestamp: self.last_update_timestamp,
        }
    }

    /// The zeroed statistics row for a pool first seen in this batch.
    pub fn new(pool_address: String) -> (r: HyperionPoolStat)
        ensures
            r.pool_address == pool_address,
            r.tvl_usd@ == "0"@,
            r.volume_24h@ == "0"@,
            r.volume_7d@ == "0"@,
            r.fees_24h@ == "0"@,
            r.fees_7d@ == "0"@,
            r.apr@ == "0"@,
            r.swap_count_24h == 0,
            r.swap_count_7d == 0,
            r.unique_traders_24h == 0,
            r.unique_traders_7d == 0,
            r.last_price@ == "0"@,
            r.price_change_24h@ == "0"@,
            r.last_update_timestamp == 0,
    {
        HyperionPoolStat {
            pool_address,
            tvl_usd: "0".to_owned(),
            volume_24h: "0".to_owned(),
            volume_7d: "0".to_owned(),
            fees_24h: "0".to_owned(),
            fees_7d: "0".to_owned(),
            apr: "0".to_owned(),
            swap_count_24h: 0,
            swap_count_7d: 0,
            unique_traders_24h: 0,
            unique_traders_7d: 0,
            last_price: "0".to_owned(),
            price_change_24h: "0".to_owned(),
            last_update_timestamp: 0,
        }
    }

    /// Folds one swap into the rolling figures: one more swap, its input
    /// amount added to volume by decimal-string addition, its fee accrued,
    /// and the latest price and timestamp taken over.
    pub fn update_from_swap(&mut self, amount_in: &str, amount_out: &str, fee_tier: i32,
        timestamp: i64)
        requires
            old(self).swap_count_24h < i64::MAX,
        ensures
            final(self).swap_count_24h == old(self).swap_count_24h + 1,
            final(self).volume_24h@ == dec_repr(
                dec_or_zero(old(self).volume_24h@) + dec_or_zero(amount_in@),
            ),
            final(self).fees_24h@ == dec_repr(
                dec_or_zero(old(self).fees_24h@) + swap_fee(amount_in@, fee_tier as int),
            ),
            match price_micro(amount_in@, amount_out@) {
                Some(q) => final(self).last_price@ == price_repr(q),
                None => final(self).last_price == old(self).last_price,
            },
            final(self).last_update_timestamp == timestamp,
            final(self).pool_address == old(self).pool_address,
            final(self).tvl_usd == old(self).tvl_usd,
            final(self).volume_7d == old(self).volume_7d,
            final(self).fees_7d == old(self).fees_7d,
            final(self).apr == old(self).apr,
            final(self).swap_count_7d == old(self).swap_count_7d,
            final(self).unique_traders_24h == old(self).unique_traders_24h,
            final(self).unique_traders_7d == old(self).unique_traders_7d,
            final(self).price_change_24h == old(self).price_change_24h,
    {
        match compute_price_micro(amount_in, amount_out) {
            Option::Some(q) => {
                self.last_price = render_price(q);
            },
            Option::None => {},
        }
        let fee: u128 = compute_swap_fee(amount_in, fee_tier);
        proof {
            lemma_dec_repr_val(fee as nat);
            assert(fee as nat == swap_fee(amount_in@, fee_tier as int));
        }
        let fee_digits: String = render_u128(fee);
        proof {
            assert(dec_or_zero(fee_digits@) == fee as nat);
        }
        let new_fees: String = dec_add_str(self.fees_24h.as_str(), fee_digits.as_str());
        self.fees_24h = new_fees;
        let new_volume: String = dec_add_str(self.volume_24h.as_str(), amount_in);
        self.volume_24h = new_volume;
        self.swap_count_24h = self.swap_count_24h + 1;
        self.last_update_timestamp = timestamp;
    }
}

} // verus!

