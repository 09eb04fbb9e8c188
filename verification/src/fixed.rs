//! Fixed-point fractions of the unit interval and rounded division.

use vstd::prelude::*;

verus! {

/// The integer that stands for one. It is divisible by 255, 360 and 1000, so
/// every 8-bit channel, whole degree and whole percent is exact.
pub const UNIT: u32 = 306_000;

/// `UNIT` as a mathematical integer.
#[verifier::inline]
pub open spec fn unit() -> int {
    306_000
}

/// Whether `x` stands for a fraction in the closed unit interval.
pub open spec fn in_unit(x: int) -> bool {
    0 <= x <= unit()
}

/// `n / d` rounded to the nearest integer, halves upward.
#[verifier::inline]
pub open spec fn round_div(n: int, d: int) -> int {
    (2 * n + d) / (2 * d)
}

/// `n / d` rounded to the nearest integer, halves to the even neighbour.
#[verifier::inline]
pub open spec fn round_div_even(n: int, d: int) -> int {
    let q = n / d;
    let r = n % d;
    if 2 * r > d || (2 * r == d && q % 2 == 1) {
        q + 1
    } else {
        q
    }
}

/// The quotient of `round_div` is within half a divisor of the exact ratio.
pub proof fn lemma_round_div_bounds(n: int, d: int)
    requires
        0 <= n,
        0 < d,
    ensures
        0 <= round_div(n, d),
        2 * (d * round_div(n, d)) <= 2 * n + d < 2 * (d * round_div(n, d)) + 2 * d,
{
    let q = round_div(n, d);
    assert(q == (2 * n + d) / (2 * d));
    assert(0 <= q && (2 * d) * q <= 2 * n + d < (2 * d) * q + 2 * d) by (nonlinear_arith)
        requires
            0 <= n,
            0 < d,
            q == (2 * n + d) / (2 * d),
    ;
    assert((2 * d) * q == 2 * (d * q)) by (nonlinear_arith);
}

/// Rounded division never exceeds `b` when the dividend is at most `b * d`.
pub proof fn lemma_round_div_le(n: int, d: int, b: int)
    requires
        0 <= n <= b * d,
        0 < d,
    ensures
        0 <= round_div(n, d) <= b,
{
    lemma_round_div_bounds(n, d);
    let q = round_div(n, d);
    assert(q <= b) by (nonlinear_arith)
        requires
            2 * (d * q) <= 2 * n + d,
            n <= b * d,
            0 < d,
    ;
}

/// Rounded division is exact on a multiple of the divisor.
pub proof fn lemma_round_div_exact(k: int, d: int)
    requires
        0 <= k,
        0 < d,
    ensures
        round_div(k * d, d) == k,
{
    lemma_round_div_bounds(k * d, d);
    let q = round_div(k * d, d);
    assert(q == k) by (nonlinear_arith)
        requires
            2 * (d * q) <= 2 * (k * d) + d < 2 * (d * q) + 2 * d,
            0 < d,
    ;
}

/// Divides with rounding to nearest, halves upward.
pub fn div_round(n: u64, d: u64) -> (q: u64)
    requires
        0 < d,
        2 * n + d <= u64::MAX,
        2 * d <= u64::MAX,
    ensures
        q == round_div(n as int, d as int),
{
    (2 * n + d) / (2 * d)
}

/// Divides with rounding to nearest, halves to even.
pub fn div_round_even(n: u64, d: u64) -> (q: u64)
    requires
        0 < d,
        2 * d <= u64::MAX,
    ensures
        q == round_div_even(n as int, d as int),
        n / d <= q <= n / d + 1,
{
    let q: u64 = n / d;
    let r: u64 = n % d;
    if 2 * r > d || (2 * r == d && q % 2 == 1) {
        assert(q <= n) by (nonlinear_arith)
            requires
                q == n / d,
                0 < d,
        ;
        assert(q < u64::MAX) by {
            if q == n {
                assert(n % d == 0 || d > n) by (nonlinear_arith)
                    requires
                        n == n / d,
                        0 < d,
                ;
                assert(n < u64::MAX) by (nonlinear_arith)
                    requires
                        n % d == 0 || d > n,
                        r == n % d,
                        r > 0,
                        2 * d <= u64::MAX,
                ;
            }
        }
        q + 1
    } else {
        q
    }
}

} // verus!
