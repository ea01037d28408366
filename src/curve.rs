//! The constant-product bonding curve `x * y = k`: `x` is the CSPR-side
//! reserve and `y` the token-side reserve. Every division rounds toward zero.
use crate::math::mul_div_floor;
use vstd::arithmetic::div_mod::{lemma_div_is_ordered_by_denominator, lemma_fundamental_div_mod};
use vstd::prelude::*;

verus! {

/// Token-side reserve after `net_cspr_in` joins a CSPR-side reserve `x`.
pub open spec fn token_reserve_after_buy(x: int, y: int, net_cspr_in: int) -> int {
    (x * y) / (x + net_cspr_in)
}

/// Tokens handed out for `net_cspr_in`.
pub open spec fn buy_output(x: int, y: int, net_cspr_in: int) -> int {
    y - token_reserve_after_buy(x, y, net_cspr_in)
}

/// CSPR-side reserve after `tokens_in` joins a token-side reserve `y`.
pub open spec fn cspr_reserve_after_sell(x: int, y: int, tokens_in: int) -> int {
    (x * y) / (y + tokens_in)
}

/// CSPR handed out for `tokens_in`, before any fee.
pub open spec fn sell_output(x: int, y: int, tokens_in: int) -> int {
    x - cspr_reserve_after_sell(x, y, tokens_in)
}

/// New token-side reserve for a buy: `floor(x * y / (x + net_cspr_in))`.
pub fn new_token_reserve(reserve_cspr: u128, reserve_token: u128, net_cspr_in: u128) -> (r: u128)
    requires
        0 < reserve_cspr + net_cspr_in <= u128::MAX,
    ensures
        r == token_reserve_after_buy(reserve_cspr as int, reserve_token as int, net_cspr_in as int),
        r <= reserve_token,
{
    mul_div_floor(reserve_cspr, reserve_token, reserve_cspr + net_cspr_in)
}

/// New CSPR-side reserve for a sell: `floor(x * y / (y + tokens_in))`.
pub fn new_cspr_reserve(reserve_cspr: u128, reserve_token: u128, tokens_in: u128) -> (r: u128)
    requires
        0 < reserve_token + tokens_in <= u128::MAX,
    ensures
        r == cspr_reserve_after_sell(reserve_cspr as int, reserve_token as int, tokens_in as int),
        r <= reserve_cspr,
{
    let r = mul_div_floor(reserve_token, reserve_cspr, reserve_token + tokens_in);
    assert(reserve_token * reserve_cspr == reserve_cspr * reserve_token) by (nonlinear_arith);
    r
}

/// Tokens bought by `net_cspr_in` (the input after the trade fee).
pub fn quote_buy(reserve_cspr: u128, reserve_token: u128, net_cspr_in: u128) -> (tokens_out: u128)
    requires
        0 < reserve_cspr + net_cspr_in <= u128::MAX,
    ensures
        tokens_out == buy_output(reserve_cspr as int, reserve_token as int, net_cspr_in as int),
{
    reserve_token - new_token_reserve(reserve_cspr, reserve_token, net_cspr_in)
}

/// Gross CSPR paid out for `tokens_in`, before the trade fee.
pub fn quote_sell(reserve_cspr: u128, reserve_token: u128, tokens_in: u128) -> (cspr_out_gross: u128)
    requires
        0 < reserve_token + tokens_in <= u128::MAX,
    ensures
        cspr_out_gross == sell_output(reserve_cspr as int, reserve_token as int, tokens_in as int),
{
    reserve_cspr - new_cspr_reserve(reserve_cspr, reserve_token, tokens_in)
}

/// Informational price: CSPR-side reserve over token-side reserve, floored.
pub fn spot_price(reserve_cspr: u128, reserve_token: u128) -> (p: u128)
    requires
        reserve_token > 0,
    ensures
        p == reserve_cspr / reserve_token,
{
    reserve_cspr / reserve_token
}

/// `k / n` does not grow as `n` grows, and drops by at least one when
/// `k * (n2 - n1) >= n1 * n2`.
proof fn lemma_quotient_falls(k: int, n1: int, n2: int)
    requires
        0 <= k,
        0 < n1 <= n2,
    ensures
        k / n2 <= k / n1,
        k * (n2 - n1) >= n1 * n2 ==> k / n2 < k / n1,
{
    lemma_div_is_ordered_by_denominator(k, n1, n2);
    if k * (n2 - n1) >= n1 * n2 {
        let q2 = k / n2;
        lemma_fundamental_div_mod(k, n2);
        assert(q2 * n2 <= k);
        assert((q2 + 1) * n1 <= k) by (nonlinear_arith)
            requires
                q2 * n2 <= k,
                k * (n2 - n1) >= n1 * n2,
                0 < n1 <= n2,
                q2 >= 0,
        ;
        lemma_fundamental_div_mod(k, n1);
        assert(k / n1 >= q2 + 1) by (nonlinear_arith)
            requires
                (q2 + 1) * n1 <= k,
                k == n1 * (k / n1) + k % n1,
                0 <= k % n1 < n1,
                0 < n1,
        ;
    }
}

/// A larger buy never yields fewer tokens; it yields strictly more whenever
/// the exact quotes differ by a whole token, that is when
/// `x * y * (d2 - d1) >= (x + d1) * (x + d2)`.
pub proof fn lemma_buy_monotone(x: nat, y: nat, d1: nat, d2: nat)
    requires
        0 < x + d1,
        d1 <= d2,
    ensures
        buy_output(x as int, y as int, d1 as int) <= buy_output(x as int, y as int, d2 as int),
        x * y * (d2 - d1) >= (x + d1) * (x + d2) ==> buy_output(x as int, y as int, d1 as int)
            < buy_output(x as int, y as int, d2 as int),
{
    assert(x * y >= 0) by (nonlinear_arith);
    lemma_quotient_falls((x * y) as int, (x + d1) as int, (x + d2) as int);
}

/// Selling more tokens never yields less CSPR; it yields strictly more
/// whenever `x * y * (t2 - t1) >= (y + t1) * (y + t2)`.
pub proof fn lemma_sell_monotone(x: nat, y: nat, t1: nat, t2: nat)
    requires
        0 < y + t1,
        t1 <= t2,
    ensures
        sell_output(x as int, y as int, t1 as int) <= sell_output(x as int, y as int, t2 as int),
        x * y * (t2 - t1) >= (y + t1) * (y + t2) ==> sell_output(x as int, y as int, t1 as int)
            < sell_output(x as int, y as int, t2 as int),
{
    assert(x * y >= 0) by (nonlinear_arith);
    lemma_quotient_falls((x * y) as int, (y + t1) as int, (y + t2) as int);
}

/// Rounding of a buy quote: the tokens handed out lie within one token of
/// the exact rational quote `y * d / (x + d)`, never below it. They equal it,
/// and so do not exceed it, when `x + d` divides `x * y`.
pub proof fn lemma_buy_rounding(x: nat, y: nat, d: nat)
    requires
        0 < x + d,
    ensures
        y * d <= buy_output(x as int, y as int, d as int) * (x + d),
        buy_output(x as int, y as int, d as int) * (x + d) < y * d + (x + d),
        ((x * y) as int) % ((x + d) as int) == 0 ==> buy_output(x as int, y as int, d as int) * (x + d)
            == y * d,
{
    let n = (x + d) as int;
    let k = (x * y) as int;
    lemma_fundamental_div_mod(k, n);
    let q = k / n;
    let m = k % n;
    assert(0 <= m < n);
    assert(y * d == y * n - k) by (nonlinear_arith)
        requires
            n == x + d,
            k == x * y,
    ;
    assert((y - q) * n == y * d + m) by (nonlinear_arith)
        requires
            k == n * q + m,
            y * d == y * n - k,
    ;
}

} // verus!
