use indexer::hyperion_pool::{HyperionPool, PoolCreatedEventOnChain};
use indexer::hyperion_swap::{HyperionSwap, SwapEventOnChain};
use indexer::numeric::{
    dec_add_str, dec_cmp_str, parse_i32_or, parse_i64_or, parse_u128_or_zero, render_i64,
};
use indexer::trade::{CreateTradeEventOnChain, Trade};

fn create_event(addr: &str, trader: &str, price: &str) -> CreateTradeEventOnChain {
    CreateTradeEventOnChain {
        trade_obj_addr: addr.to_string(),
        trader: trader.to_string(),
        trade_type: 1,
        token_from: "APT".to_string(),
        token_to: "USDC".to_string(),
        amount_from: "10".to_string(),
        amount_to: "20".to_string(),
        price: price.to_string(),
        status: 1,
        creation_timestamp: "1700000000".to_string(),
        last_update_timestamp: "1700000000".to_string(),
        notes: "first".to_string(),
    }
}

#[test]
fn parses_plain_decimal_fields() {
    let t = Trade::from_create_trade_event(&create_event("0xt", "0xa", "100"), 4);
    assert_eq!(t.price, 100);
    assert_eq!(t.amount_from, 10);
    assert_eq!(t.amount_to, 20);
    assert_eq!(t.creation_timestamp, 1_700_000_000);
    assert_eq!(t.last_update_event_idx, 4);
    assert_eq!(t.trade_type, 1);
    assert_eq!(t.status, 1);
}

#[test]
fn parse_falls_back_to_zero_on_malformed_input() {
    let mut ev = create_event("0xt", "0xa", "not-a-number");
    ev.amount_from = "".to_string();
    ev.creation_timestamp = "12.5".to_string();
    let t = Trade::from_create_trade_event(&ev, 0);
    assert_eq!(t.price, 0);
    assert_eq!(t.amount_from, 0);
    assert_eq!(t.creation_timestamp, 0);
}

#[test]
fn parse_signed_and_overflow_cases() {
    assert_eq!(parse_i64_or("-42", 0), -42);
    assert_eq!(parse_i64_or("+7", 0), 7);
    assert_eq!(parse_i64_or("9223372036854775807", 0), i64::MAX);
    assert_eq!(parse_i64_or("-9223372036854775808", 0), i64::MIN);
    // one past either end of the range falls back
    assert_eq!(parse_i64_or("9223372036854775808", 99), 99);
    assert_eq!(parse_i64_or("-9223372036854775809", 99), 99);
    assert_eq!(parse_i64_or("", 5), 5);
    assert_eq!(parse_i64_or("+", 5), 5);
    assert_eq!(parse_i32_or("2147483648", -1), -1);
    assert_eq!(parse_i32_or("2147483647", -1), i32::MAX);
    assert_eq!(parse_u128_or_zero("340282366920938463463374607431768211455"), u128::MAX);
    assert_eq!(parse_u128_or_zero("340282366920938463463374607431768211456"), 0);
}

#[test]
fn pool_event_fee_and_spacing_fall_back_to_named_defaults() {
    let ev = PoolCreatedEventOnChain {
        pool_address: "0xp".to_string(),
        token0: "0xa".to_string(),
        token1: "0xb".to_string(),
        token0_symbol: "APT".to_string(),
        token1_symbol: "USDC".to_string(),
        fee: "bogus".to_string(),
        tick_spacing: "".to_string(),
        sqrt_price_x96: "79228162514264337593543950336".to_string(),
        tick: "-5".to_string(),
        timestamp: "1700000001".to_string(),
    };
    let p = HyperionPool::from_pool_created_event(&ev, 9);
    assert_eq!(p.fee_tier, 3000);
    assert_eq!(p.tick_spacing, 60);
    assert_eq!(p.tick, -5);
    assert_eq!(p.liquidity, "0");
    assert_eq!(p.sqrt_price_x96, "79228162514264337593543950336");
    assert_eq!(p.last_update_version, 9);
}

#[test]
fn decimal_string_addition_is_exact_beyond_64_bits() {
    assert_eq!(dec_add_str("999999999999999999999999", "1"), "1000000000000000000000000");
    assert_eq!(dec_add_str("0", "0"), "0");
    assert_eq!(
        dec_add_str("340282366920938463463374607431768211456", "1"),
        "340282366920938463463374607431768211457"
    );
    // a malformed operand counts as zero
    assert_eq!(dec_add_str("12x", "5"), "5");
    assert_eq!(dec_add_str("", "5"), "5");
    // leading zeros are normalized away
    assert_eq!(dec_add_str("007", "0008"), "15");
}

#[test]
fn decimal_string_comparison_is_by_value() {
    assert_eq!(dec_cmp_str("9", "10"), -1);
    assert_eq!(dec_cmp_str("10", "9"), 1);
    assert_eq!(dec_cmp_str("0010", "10"), 0);
    assert_eq!(
        dec_cmp_str(
            "340282366920938463463374607431768211456",
            "340282366920938463463374607431768211457"
        ),
        -1
    );
    // malformed operands count as zero
    assert_eq!(dec_cmp_str("oops", "0"), 0);
    assert_eq!(dec_cmp_str("oops", "1"), -1);
}

#[test]
fn renders_signed_decimals() {
    assert_eq!(render_i64(0), "0");
    assert_eq!(render_i64(105), "105");
    assert_eq!(render_i64(-7), "-7");
}

#[test]
fn swap_id_is_pool_version_and_index() {
    let ev = SwapEventOnChain {
        pool: "0xpool".to_string(),
        sender: "0xs".to_string(),
        recipient: "0xr".to_string(),
        token_in: "APT".to_string(),
        token_out: "USDC".to_string(),
        amount_in: "1000".to_string(),
        amount_out: "2000".to_string(),
        sqrt_price_x96: "1".to_string(),
        liquidity: "2".to_string(),
        tick: "3".to_string(),
        timestamp: "1700000002".to_string(),
    };
    let w: HyperionSwap = HyperionSwap::from_swap_event(&ev, 15, 2);
    assert_eq!(w.swap_id, "0xpool-15-2");
    assert_eq!(w.tx_version, 15);
    assert_eq!(w.event_idx, 2);
    assert_eq!(w.tick_after, 3);
}
