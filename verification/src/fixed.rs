//! Fixed-point scales and exact integer division.

use vstd::prelude::*;
use vstd::arithmetic::div_mod::lemma_fundamental_div_mod_converse;
use vstd::arithmetic::div_mod::lemma_fundamental_div_mod;
use vstd::arithmetic::div_mod::lemma_mod_bound;

verus! {

/// Multipliers are counted in hundredths: 150 stands for 1.5.
pub const RATIO_SCALE: u64 = 100;

/// The risk per trade is counted in ten-thousandths of the equity: 100
/// stands for one percent.
pub const RISK_SCALE: u64 = 10_000;

/// Position sizes are counted in hundred-millionths of one unit of the
/// traded asset.
pub const LOT_SCALE: u64 = 100_000_000;

/// A percentage with two decimals is counted in hundredths of a percent:
/// 10_000 stands for 100 %.
pub const PERCENT_SCALE: u64 = 10_000;

/// Largest magnitude of a candle price, in ticks.
pub const PRICE_LIMIT: i64 = 1_000_000_000_000_000;

/// Largest magnitude of the entry, stop and target price of a trade.
pub const TRADE_PRICE_LIMIT: i64 = 1_000_000_000_000_000_000;

/// Largest take-profit or stop-loss multiplier, in hundredths.
pub const MULTIPLIER_LIMIT: u64 = 10_000;

/// Largest risk per trade, in ten-thousandths of the equity.
pub const RISK_LIMIT: u64 = 1_000_000;

/// The quotient of `n` by a positive `d`, rounded towards minus infinity.
pub fn div_floor(n: i128, d: i128) -> (q: i128)
    requires
        d > 0,
    ensures
        q == n / d,
{
    if n >= 0 {
        n / d
    } else {
        let m: i128 = -(n + 1);
        let h: i128 = m / d;
        proof {
            let r: int = m as int % d as int;
            lemma_fundamental_div_mod(m as int, d as int);
            lemma_mod_bound(m as int, d as int);
            assert(d * (m / d) == (m / d) * d) by (nonlinear_arith);
            assert((m as int) == (h as int) * d + r);
            assert((n as int) == (-(h as int) - 1) * d + (d - 1 - r)) by (nonlinear_arith)
                requires
                    (m as int) == (h as int) * d + r,
                    m == -(n + 1),
            ;
            lemma_fundamental_div_mod_converse(n as int, d as int, -(h as int) - 1, d - 1 - r);
            assert(0 <= h <= m) by (nonlinear_arith)
                requires
                    (m as int) == (h as int) * d + r,
                    0 <= r < d,
                    m >= 0,
                    d > 0,
            ;
        }
        -h - 1
    }
}

/// A quotient by a positive divisor is no farther from zero than the
/// dividend.
pub proof fn lemma_div_magnitude(x: int, d: int)
    requires
        d > 0,
    ensures
        x >= 0 ==> 0 <= x / d <= x,
        x < 0 ==> x <= x / d < 0,
{
    lemma_fundamental_div_mod(x, d);
    lemma_mod_bound(x, d);
    let q = x / d;
    let r = x % d;
    assert(x == d * q + r);
    if x >= 0 {
        assert(0 <= q <= x) by (nonlinear_arith)
            requires
                x == d * q + r,
                0 <= r < d,
                x >= 0,
                d > 0,
        ;
    } else {
        assert(x <= q < 0) by (nonlinear_arith)
            requires
                x == d * q + r,
                0 <= r < d,
                x < 0,
                d > 0,
        ;
    }
}

/// A product is no farther from zero than the product of the bounds of
/// its factors.
pub proof fn lemma_mul_bounds(a: int, la: int, b: int, lb: int)
    requires
        -la <= a <= la,
        -lb <= b <= lb,
    ensures
        -(la * lb) <= a * b <= la * lb,
{
    assert(-(la * lb) <= a * b <= la * lb) by (nonlinear_arith)
        requires
            -la <= a <= la,
            -lb <= b <= lb,
    ;
}

/// Whether `x` can be held in 64 bits.
pub open spec fn fits_i64(x: int) -> bool {
    i64::MIN <= x <= i64::MAX
}

/// `num / den` rounded to the nearest integer, halves upwards: half the
/// divisor is added before the division, which rounds down.
pub open spec fn rounded_ratio(num: int, den: int) -> int {
    let half = den / 2;
    (num + half) / den
}

/// The rounded quotient of two counts, which has no value where the
/// divisor is zero.
pub fn round_div(num: u64, den: u64) -> (q: Option<u64>)
    ensures
        den == 0 ==> q is None,
        den > 0 ==> q == Some(rounded_ratio(num as int, den as int) as u64),
        den > 0 ==> 0 <= rounded_ratio(num as int, den as int) <= num,
{
    if den == 0 {
        return None;
    }
    let n: u128 = (num as u128) + (den as u128) / 2;
    let d: u128 = den as u128;
    let q: u128 = n / d;
    proof {
        lemma_fundamental_div_mod(n as int, d as int);
        lemma_mod_bound(n as int, d as int);
        let r: int = n as int % d as int;
        assert(q <= num) by (nonlinear_arith)
            requires
                n == d * q + r,
                0 <= r,
                n <= num + d / 2,
                d >= 1,
                q >= 0,
                num >= 0,
        ;
    }
    Some(q as u64)
}

} // verus!
