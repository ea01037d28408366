use screener_contracts::curve::{new_token_reserve, quote_buy, quote_sell, spot_price};
use screener_contracts::fees::{split_fee, trade_fee};
use screener_contracts::math::mul_div_floor;

#[test]
fn mul_div_floor_exact_on_wide_products() {
    assert_eq!(mul_div_floor(u128::MAX, u128::MAX, u128::MAX), u128::MAX);
    assert_eq!(mul_div_floor(1u128 << 100, 1u128 << 100, 1u128 << 101), 1u128 << 99);
    assert_eq!(mul_div_floor(7, 10, 3 * 7 + 1), 3);
    assert_eq!(mul_div_floor(0, 12345, 1), 0);
    assert_eq!(mul_div_floor(5, 0, 9), 0);
    let a: u128 = 30_000_000_000;
    let b: u128 = 1_073_000_000_000_000_000;
    let c: u128 = 30_990_000_000;
    assert_eq!(mul_div_floor(a, b, c), 1_038_722_168_441_432_720);
}

#[test]
fn buy_quote_example() {
    assert_eq!(trade_fee(100), 1);
    assert_eq!(new_token_reserve(1000, 1_000_000, 99), 909_918);
    assert_eq!(quote_buy(1000, 1_000_000, 99), 90_082);
}

#[test]
fn round_trip_has_no_profit() {
    let tokens = quote_buy(1000, 1_000_000, 99);
    let gross = quote_sell(1099, 909_918, tokens);
    let net = gross - trade_fee(gross);
    assert_eq!(gross, 100);
    assert!(net <= 99);
    assert!(net < 100);
}

#[test]
fn buy_quote_never_falls_as_input_grows() {
    let mut last = 0u128;
    for d in 0..200u128 {
        let out = quote_buy(1, 10, d + 1);
        assert!(out >= last);
        last = out;
    }
    assert!(quote_buy(1000, 1_000_000, 100) > quote_buy(1000, 1_000_000, 99));
    // equal outputs where the exact quotes differ by less than one token
    assert_eq!(quote_buy(1, 10, 5), quote_buy(1, 10, 6));
}

#[test]
fn sell_quote_never_falls_as_input_grows() {
    let mut last = 0u128;
    for t in 1..300u128 {
        let out = quote_sell(1_000, 500, t);
        assert!(out >= last);
        last = out;
    }
    assert!(quote_sell(1_000_000, 1_000, 10) > quote_sell(1_000_000, 1_000, 9));
}

#[test]
fn buy_rounding_within_one_token_of_exact_quote() {
    let (x, y, d) = (1000u128, 1_000_000u128, 99u128);
    let out = quote_buy(x, y, d);
    assert!(out * (x + d) >= y * d);
    assert!(out * (x + d) < y * d + (x + d));
    // when x + d divides x * y the quote is exact
    assert_eq!(quote_buy(100, 300, 50) * 150, 300 * 50);
}

#[test]
fn spot_price_floors() {
    assert_eq!(spot_price(10, 3), 3);
    assert_eq!(spot_price(30_000_000_000, 1_073_000_000_000_000_000), 0);
}

#[test]
fn fee_split_conserves_the_fee() {
    let s = split_fee(12_345);
    assert_eq!(s.creator, 2_469);
    assert_eq!(s.stories, 1_234);
    assert_eq!(s.burn_cspr, 1_234);
    assert_eq!(s.burn_secondary, 1_234);
    assert_eq!(s.platform, 6_174);
    for f in [0u128, 1, 9, 10, 99, 100, 101, 12_345, u128::MAX] {
        let s = split_fee(f);
        assert_eq!(
            s.creator as u128 + s.stories + s.burn_cspr + s.burn_secondary,
            f - s.platform
        );
    }
}

#[test]
fn small_trades_pay_no_fee() {
    assert_eq!(trade_fee(99), 0);
    assert_eq!(trade_fee(0), 0);
    assert_eq!(trade_fee(1_000_000_000), 10_000_000);
}
