//! Reading a single-precision bit pattern as a fixed-point fraction, with
//! integer arithmetic only.

use vstd::prelude::*;
use vstd::arithmetic::power2::{pow2, lemma_pow2_strictly_increases, lemma2_to64, lemma2_to64_rest,
    lemma_pow2_unfold};
use crate::fixed::{UNIT, unit, round_div, div_round, lemma_round_div_bounds, lemma_round_div_le};

verus! {

/// The sign bit of a pattern.
pub open spec fn sign_of(bits: u32) -> int {
    bits as int / 0x8000_0000
}

/// The biased exponent of a pattern.
pub open spec fn exponent_of(bits: u32) -> int {
    (bits as int / 0x80_0000) % 256
}

/// The 23 stored bits of the significand of a pattern.
pub open spec fn mantissa_of(bits: u32) -> int {
    bits as int % 0x80_0000
}

/// The fraction that a bit pattern stands for, rounded to the nearest
/// multiple of `1 / UNIT` and held to the unit interval: a negative number
/// or a NaN gives zero, and one or more, or infinity, gives one.
pub open spec fn single_fraction(bits: u32) -> int {
    let e = exponent_of(bits);
    let m = mantissa_of(bits);
    if sign_of(bits) == 1 {
        0
    } else if e == 255 {
        if m == 0 {
            unit()
        } else {
            0
        }
    } else if e >= 127 {
        unit()
    } else if e == 0 {
        round_div(m * unit(), pow2(149) as int)
    } else {
        round_div((0x80_0000 + m) * unit(), pow2((150 - e) as nat) as int)
    }
}

/// A ratio of less than one half rounds to zero.
pub proof fn lemma_round_div_small(n: int, d: int)
    requires
        0 <= n,
        2 * n < d,
    ensures
        round_div(n, d) == 0,
{
    lemma_round_div_bounds(n, d);
    let q = round_div(n, d);
    assert(q == 0) by (nonlinear_arith)
        requires
            0 <= q,
            0 < d,
            2 * (d * q) <= 2 * n + d,
            2 * n < d,
    ;
}

/// The fraction of any pattern is a valid one.
pub proof fn lemma_single_fraction_bounds(bits: u32)
    ensures
        0 <= single_fraction(bits) <= unit(),
{
    let e = exponent_of(bits);
    let m = mantissa_of(bits);
    lemma2_to64();
    if sign_of(bits) != 1 && e < 127 {
        if e == 0 {
            lemma_pow2_strictly_increases(24, 149);
            assert(m * unit() <= unit() * (pow2(149) as int)) by (nonlinear_arith)
                requires
                    0 <= m <= pow2(149),
            ;
            lemma_round_div_le(m * unit(), pow2(149) as int, unit());
        } else {
            let k = (150 - e) as nat;
            if k > 24 {
                lemma_pow2_strictly_increases(24, k);
            }
            assert((0x80_0000 + m) * unit() <= unit() * (pow2(k) as int)) by (nonlinear_arith)
                requires
                    0 <= 0x80_0000 + m <= pow2(k),
            ;
            lemma_round_div_le((0x80_0000 + m) * unit(), pow2(k) as int, unit());
        }
    }
}

/// Two to the power `k`.
pub fn power_of_two(k: u32) -> (p: u64)
    requires
        k <= 62,
    ensures
        p == pow2(k as nat),
        p >= 1,
{
    let mut p: u64 = 1;
    let mut i: u32 = 0;
    proof {
        lemma2_to64();
    }
    while i < k
        invariant
            i <= k <= 62,
            p == pow2(i as nat),
            p >= 1,
        decreases k - i,
    {
        proof {
            lemma_pow2_unfold((i + 1) as nat);
            lemma2_to64_rest();
            if i + 1 < 63 {
                lemma_pow2_strictly_increases((i + 1) as nat, 63);
            }
        }
        p = 2 * p;
        i = i + 1;
    }
    p
}

/// Reads a single-precision bit pattern as a fraction.
pub fn fraction_of_bits(bits: u32) -> (f: u32)
    ensures
        f == single_fraction(bits),
        f <= UNIT,
{
    proof {
        lemma_single_fraction_bounds(bits);
        lemma2_to64();
        lemma2_to64_rest();
    }
    let sign: u32 = bits / 0x8000_0000;
    let e: u32 = (bits / 0x80_0000) % 256;
    let m: u64 = (bits % 0x80_0000) as u64;
    if sign == 1 {
        0
    } else if e == 255 {
        if m == 0 {
            UNIT
        } else {
            0
        }
    } else if e >= 127 {
        UNIT
    } else if e == 0 {
        proof {
            lemma_pow2_strictly_increases(44, 149);
            lemma_round_div_small(m as int * unit(), pow2(149) as int);
        }
        0
    } else {
        let k: u32 = 150 - e;
        let n: u64 = (0x80_0000 + m) * (UNIT as u64);
        if k > 44 {
            proof {
                lemma_pow2_strictly_increases(44, k as nat);
                lemma_round_div_small(n as int, pow2(k as nat) as int);
            }
            0
        } else {
            proof {
                if k < 44 {
                    lemma_pow2_strictly_increases(k as nat, 44);
                }
            }
            div_round(n, power_of_two(k)) as u32
        }
    }
}

} // verus!
