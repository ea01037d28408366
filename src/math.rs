//! Exact integer arithmetic whose intermediate values exceed 128 bits.
use vstd::arithmetic::div_mod::lemma_fundamental_div_mod_converse;
use vstd::prelude::*;

verus! {

/// Quotient and remainder of `a * b` divided by `c`, computed without forming
/// the 256-bit product. Works bit by bit on `b`, most significant bit first.
fn mul_div_rem(a: u128, b: u128, c: u128) -> (res: (u128, u128))
    requires
        0 < c,
        a <= c,
    ensures
        a * b == res.0 * c + res.1,
        res.1 < c,
    decreases b,
{
    if b == 0 {
        assert(a * b == 0) by (nonlinear_arith)
            requires
                b == 0,
        ;
        return (0, 0);
    }
    let half: u128 = b / 2;
    let (q0, r0) = mul_div_rem(a, half, c);
    // a * (2 * half) == 2 * q0 * c + 2 * r0
    let mut q: u128;
    let mut r: u128;
    if r0 >= c - r0 {
        assert(2 * q0 + 1 <= 2 * half) by (nonlinear_arith)
            requires
                a * half == q0 * c + r0,
                a <= c,
                0 < c,
                2 * r0 >= c,
                r0 < c,
        ;
        q = 2 * q0 + 1;
        r = r0 - (c - r0);
        assert(q * c + r == 2 * q0 * c + 2 * r0) by (nonlinear_arith)
            requires
                q == 2 * q0 + 1,
                r == 2 * r0 - c,
        ;
    } else {
        assert(2 * q0 <= 2 * half) by (nonlinear_arith)
            requires
                a * half == q0 * c + r0,
                a <= c,
                0 < c,
                r0 >= 0,
        ;
        q = 2 * q0;
        r = r0 + r0;
        assert(q * c + r == 2 * q0 * c + 2 * r0) by (nonlinear_arith)
            requires
                q == 2 * q0,
                r == 2 * r0,
        ;
    }
    assert(a * (2 * half) == q * c + r) by (nonlinear_arith)
        requires
            a * half == q0 * c + r0,
            q * c + r == 2 * q0 * c + 2 * r0,
    ;
    if b % 2 == 1 {
        assert(a * b == a * (2 * half) + a) by (nonlinear_arith)
            requires
                b == 2 * half + 1,
        ;
        if r >= c - a {
            assert(q + 1 <= b) by (nonlinear_arith)
                requires
                    a * b == q * c + r + a,
                    a <= c,
                    0 < c,
                    r + a >= c,
            ;
            let ghost q1 = q;
            let ghost r1 = r;
            q = q + 1;
            r = r - (c - a);
            assert(a * b == q * c + r) by (nonlinear_arith)
                requires
                    a * b == q1 * c + r1 + a,
                    q == q1 + 1,
                    r == r1 + a - c,
            ;
        } else {
            r = r + a;
        }
    } else {
        assert(b == 2 * half);
    }
    (q, r)
}

/// `a * b / c`, rounded toward zero.
pub fn mul_div_floor(a: u128, b: u128, c: u128) -> (r: u128)
    requires
        0 < c,
        a <= c,
    ensures
        r == (a * b) / (c as int),
        r <= b,
{
    let (q, rem) = mul_div_rem(a, b, c);
    proof {
        lemma_fundamental_div_mod_converse(a * b, c as int, q as int, rem as int);
        assert(q <= b) by (nonlinear_arith)
            requires
                a * b == q * c + rem,
                a <= c,
                0 < c,
                rem >= 0,
        ;
    }
    q
}

} // verus!
