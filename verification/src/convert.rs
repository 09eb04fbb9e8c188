//! Conversions between RGB and the polar models HSV and HSL.
//!
//! Hue is a fraction of a full turn. The six hue sectors are closed at their
//! upper end: a hue of exactly one sixth of a turn belongs to the first
//! sector. Comparisons against zero and against the extremes are exact,
//! because fixed-point arithmetic leaves no rounding noise to absorb.

use vstd::prelude::*;
use crate::fixed::{UNIT, unit, in_unit, round_div, div_round, lemma_round_div_bounds, lemma_round_div_le};

verus! {

/// The largest of three integers.
pub open spec fn max3(a: int, b: int, c: int) -> int {
    if a >= b && a >= c {
        a
    } else if b >= c {
        b
    } else {
        c
    }
}

/// The smallest of three integers.
pub open spec fn min3(a: int, b: int, c: int) -> int {
    if a <= b && a <= c {
        a
    } else if b <= c {
        b
    } else {
        c
    }
}

/// Chroma of an HSV color: `v * s`.
pub open spec fn chroma(s: int, v: int) -> int {
    round_div(v * s, unit())
}

/// The triangle wave `1 - |6h mod 2 - 1|`, which rises and falls once every
/// third of a turn.
pub open spec fn hue_ramp(h: int) -> int {
    let f = (6 * h) % (2 * unit());
    if f <= unit() {
        f
    } else {
        2 * unit() - f
    }
}

/// Places the largest component `c`, the middle component `x` and zero by hue
/// sector, and lifts all three by `m`.
pub open spec fn sector_rgb(h: int, c: int, x: int, m: int) -> (int, int, int) {
    let h6 = 6 * h;
    if h6 <= unit() {
        (c + m, x + m, m)
    } else if h6 <= 2 * unit() {
        (x + m, c + m, m)
    } else if h6 <= 3 * unit() {
        (m, c + m, x + m)
    } else if h6 <= 4 * unit() {
        (m, x + m, c + m)
    } else if h6 <= 5 * unit() {
        (x + m, m, c + m)
    } else {
        (c + m, m, x + m)
    }
}

/// RGB of an HSV color.
pub open spec fn hsv_to_rgb_spec(h: int, s: int, v: int) -> (int, int, int) {
    let c = chroma(s, v);
    let x = round_div(c * hue_ramp(h), unit());
    sector_rgb(h, c, x, v - c)
}

/// Six times the chroma times the hue of an RGB color, before the division:
/// the sector offset of the largest channel plus the signed difference of the
/// other two.
pub open spec fn hue_numer(r: int, g: int, b: int) -> int {
    let v = max3(r, g, b);
    let c = v - min3(r, g, b);
    if v == r {
        if g >= b {
            (g - b) * unit()
        } else {
            6 * c * unit() - (b - g) * unit()
        }
    } else if v == g {
        2 * c * unit() + (b - r) * unit()
    } else {
        4 * c * unit() + (r - g) * unit()
    }
}

/// Hue of an RGB color: zero where the chroma is zero, and a full turn wraps
/// to zero.
pub open spec fn rgb_hue(r: int, g: int, b: int) -> int {
    let c = max3(r, g, b) - min3(r, g, b);
    if c == 0 {
        0
    } else {
        let q = round_div(hue_numer(r, g, b), 6 * c);
        if q >= unit() {
            q - unit()
        } else {
            q
        }
    }
}

/// HSV of an RGB color.
pub open spec fn rgb_to_hsv_spec(r: int, g: int, b: int) -> (int, int, int) {
    let v = max3(r, g, b);
    let c = v - min3(r, g, b);
    let s = if v == 0 {
        0
    } else {
        round_div(c * unit(), v)
    };
    (rgb_hue(r, g, b), s, v)
}

/// HSL of an HSV color, hue unchanged: `l = v * (1 - s / 2)`, and saturation
/// zero at either pole.
pub open spec fn hsv_to_hsl_spec(h: int, s: int, v: int) -> (int, int, int) {
    let l = round_div(v * (2 * unit() - s), 2 * unit());
    let m = if l <= unit() - l {
        l
    } else {
        unit() - l
    };
    let s2 = if l == 0 || l == unit() {
        0
    } else {
        round_div((v - l) * unit(), m)
    };
    (h, s2, l)
}

/// The chroma is at most the value, and the ramp at most one.
pub proof fn lemma_hsv_parts(h: int, s: int, v: int)
    requires
        in_unit(h),
        in_unit(s),
        in_unit(v),
    ensures
        0 <= chroma(s, v) <= v,
        0 <= hue_ramp(h) <= unit(),
        0 <= round_div(chroma(s, v) * hue_ramp(h), unit()) <= chroma(s, v),
{
    assert(0 <= v * s <= v * unit()) by (nonlinear_arith)
        requires
            0 <= s <= unit(),
            0 <= v,
    ;
    lemma_round_div_le(v * s, unit(), v);
    let c = chroma(s, v);
    let t = hue_ramp(h);
    assert(0 <= c * t <= c * unit()) by (nonlinear_arith)
        requires
            0 <= t <= unit(),
            0 <= c,
    ;
    lemma_round_div_le(c * t, unit(), c);
}

/// Every component of the RGB of a valid HSV color is a valid fraction.
pub proof fn lemma_hsv_to_rgb_in_unit(h: int, s: int, v: int)
    requires
        in_unit(h),
        in_unit(s),
        in_unit(v),
    ensures
        in_unit(hsv_to_rgb_spec(h, s, v).0),
        in_unit(hsv_to_rgb_spec(h, s, v).1),
        in_unit(hsv_to_rgb_spec(h, s, v).2),
{
    lemma_hsv_parts(h, s, v);
}

/// Converts HSV to RGB.
pub fn hsv_to_rgb(h: u32, s: u32, v: u32) -> (rgb: (u32, u32, u32))
    requires
        h <= UNIT,
        s <= UNIT,
        v <= UNIT,
    ensures
        (rgb.0 as int, rgb.1 as int, rgb.2 as int) == hsv_to_rgb_spec(h as int, s as int, v as int),
        rgb.0 <= UNIT,
        rgb.1 <= UNIT,
        rgb.2 <= UNIT,
{
    proof {
        lemma_hsv_parts(h as int, s as int, v as int);
        lemma_hsv_to_rgb_in_unit(h as int, s as int, v as int);
    }
    let u: u64 = UNIT as u64;
    assert(v as u64 * s as u64 <= 306_000 * 306_000) by (nonlinear_arith)
        requires
            v <= 306_000,
            s <= 306_000,
    ;
    let c: u64 = div_round(v as u64 * s as u64, u);
    let h6: u64 = 6 * (h as u64);
    let f: u64 = h6 % (2 * u);
    let t: u64 = if f <= u {
        f
    } else {
        2 * u - f
    };
    assert(c * t <= 306_000 * 306_000) by (nonlinear_arith)
        requires
            c <= 306_000,
            t <= 306_000,
    ;
    let x: u64 = div_round(c * t, u);
    let m: u64 = v as u64 - c;
    let (r, g, b): (u64, u64, u64) = if h6 <= u {
        (c + m, x + m, m)
    } else if h6 <= 2 * u {
        (x + m, c + m, m)
    } else if h6 <= 3 * u {
        (m, c + m, x + m)
    } else if h6 <= 4 * u {
        (m, x + m, c + m)
    } else if h6 <= 5 * u {
        (x + m, m, c + m)
    } else {
        (c + m, m, x + m)
    };
    (r as u32, g as u32, b as u32)
}

/// The hue numerator of a valid RGB color lies within six sectors.
pub proof fn lemma_hue_numer_bounds(r: int, g: int, b: int)
    requires
        in_unit(r),
        in_unit(g),
        in_unit(b),
    ensures
        0 <= hue_numer(r, g, b) <= unit() * (6 * (max3(r, g, b) - min3(r, g, b))),
{
}

/// Every component of the HSV of a valid RGB color is a valid fraction, and
/// the hue is short of a full turn.
pub proof fn lemma_rgb_to_hsv_in_unit(r: int, g: int, b: int)
    requires
        in_unit(r),
        in_unit(g),
        in_unit(b),
    ensures
        0 <= rgb_to_hsv_spec(r, g, b).0 < unit(),
        in_unit(rgb_to_hsv_spec(r, g, b).1),
        in_unit(rgb_to_hsv_spec(r, g, b).2),
{
    let v = max3(r, g, b);
    let c = v - min3(r, g, b);
    if c != 0 {
        lemma_hue_numer_bounds(r, g, b);
        lemma_round_div_le(hue_numer(r, g, b), 6 * c, unit());
    }
    if v != 0 {
        assert(c * unit() <= unit() * v) by (nonlinear_arith)
            requires
                0 <= c <= v,
        ;
        lemma_round_div_le(c * unit(), v, unit());
    }
}

/// The largest of three components.
pub fn max_of3(a: u32, b: u32, c: u32) -> (m: u32)
    ensures
        m == max3(a as int, b as int, c as int),
{
    if a >= b && a >= c {
        a
    } else if b >= c {
        b
    } else {
        c
    }
}

/// The smallest of three components.
pub fn min_of3(a: u32, b: u32, c: u32) -> (m: u32)
    ensures
        m == min3(a as int, b as int, c as int),
{
    if a <= b && a <= c {
        a
    } else if b <= c {
        b
    } else {
        c
    }
}

/// Computes the hue of an RGB color.
pub fn hue_of_rgb(r: u32, g: u32, b: u32) -> (h: u32)
    requires
        r <= UNIT,
        g <= UNIT,
        b <= UNIT,
    ensures
        h == rgb_hue(r as int, g as int, b as int),
        h < UNIT,
{
    let u: u64 = UNIT as u64;
    let v: u32 = max_of3(r, g, b);
    let c: u64 = (v - min_of3(r, g, b)) as u64;
    if c == 0 {
        return 0;
    }
    proof {
        lemma_hue_numer_bounds(r as int, g as int, b as int);
        lemma_round_div_le(hue_numer(r as int, g as int, b as int), 6 * c as int, unit());
    }
    let numer: u64 = if v == r {
        if g >= b {
            (g - b) as u64 * u
        } else {
            (6 * c - (b - g) as u64) * u
        }
    } else if v == g {
        (2 * c + b as u64 - r as u64) * u
    } else {
        (4 * c + r as u64 - g as u64) * u
    };
    let q: u64 = div_round(numer, 6 * c);
    if q >= u {
        (q - u) as u32
    } else {
        q as u32
    }
}

/// Converts RGB to HSV.
pub fn rgb_to_hsv(r: u32, g: u32, b: u32) -> (hsv: (u32, u32, u32))
    requires
        r <= UNIT,
        g <= UNIT,
        b <= UNIT,
    ensures
        (hsv.0 as int, hsv.1 as int, hsv.2 as int) == rgb_to_hsv_spec(r as int, g as int, b as int),
        hsv.0 < UNIT,
        hsv.1 <= UNIT,
        hsv.2 <= UNIT,
{
    proof {
        lemma_rgb_to_hsv_in_unit(r as int, g as int, b as int);
    }
    let u: u64 = UNIT as u64;
    let v: u32 = max_of3(r, g, b);
    let c: u64 = (v - min_of3(r, g, b)) as u64;
    let h: u32 = hue_of_rgb(r, g, b);
    let s: u32 = if v == 0 {
        0
    } else {
        div_round(c * u, v as u64) as u32
    };
    (h, s, v)
}

/// The lightness of a valid HSV color is at most its value, and the
/// saturation over it is a valid fraction.
#[verifier::rlimit(40)]
pub proof fn lemma_hsv_to_hsl_in_unit(h: int, s: int, v: int)
    requires
        in_unit(h),
        in_unit(s),
        in_unit(v),
    ensures
        hsv_to_hsl_spec(h, s, v).0 == h,
        in_unit(hsv_to_hsl_spec(h, s, v).1),
        0 <= hsv_to_hsl_spec(h, s, v).2 <= v,
{
    let l = round_div(v * (2 * unit() - s), 2 * unit());
    assert(0 <= v * (2 * unit() - s) <= v * (2 * unit())) by (nonlinear_arith)
        requires
            0 <= s <= unit(),
            0 <= v,
    ;
    lemma_round_div_le(v * (2 * unit() - s), 2 * unit(), v);
    lemma_round_div_bounds(v * (2 * unit() - s), 2 * unit());
    if l != 0 && l != unit() {
        let m = if l <= unit() - l {
            l
        } else {
            unit() - l
        };
        assert((v - l) * unit() <= unit() * m) by (nonlinear_arith)
            requires
                2 * (2 * unit() * l) <= 2 * (v * (2 * unit() - s)) + 2 * unit(),
                2 * (v * (2 * unit() - s)) + 2 * unit() < 2 * (2 * unit() * l) + 2 * (2 * unit()),
                0 <= s <= unit(),
                0 <= l <= v <= unit(),
                unit() == 306_000,
                m == if l <= unit() - l {
                    l
                } else {
                    unit() - l
                },
        ;
        assert(0 <= (v - l) * unit()) by (nonlinear_arith)
            requires
                l <= v,
        ;
        lemma_round_div_le((v - l) * unit(), m, unit());
    }
}

/// Converts HSV to HSL.
pub fn hsv_to_hsl(h: u32, s: u32, v: u32) -> (hsl: (u32, u32, u32))
    requires
        h <= UNIT,
        s <= UNIT,
        v <= UNIT,
    ensures
        (hsl.0 as int, hsl.1 as int, hsl.2 as int) == hsv_to_hsl_spec(h as int, s as int, v as int),
        hsl.0 == h,
        hsl.1 <= UNIT,
        hsl.2 <= v,
{
    proof {
        lemma_hsv_to_hsl_in_unit(h as int, s as int, v as int);
    }
    let u: u64 = UNIT as u64;
    assert(v as u64 * (2 * u - s as u64) <= 306_000 * 612_000) by (nonlinear_arith)
        requires
            v <= 306_000,
            s <= 306_000,
            u == 306_000,
    ;
    let l: u64 = div_round(v as u64 * (2 * u - s as u64), 2 * u);
    let m: u64 = if l <= u - l {
        l
    } else {
        u - l
    };
    let s2: u64 = if l == 0 || l == u {
        0
    } else {
        div_round((v as u64 - l) * u, m)
    };
    (h, s2 as u32, l as u32)
}

/// The upper of the two levels between which an HSL color's channels lie:
/// `l * (1 + s)` in the darker half, `l + s - l * s` in the lighter.
pub open spec fn hsl_upper(s: int, l: int) -> int {
    let ls = round_div(l * s, unit());
    if 2 * l <= unit() {
        l + ls
    } else {
        l + s - ls
    }
}

/// One channel of an HSL color from the two levels `p <= q` and the
/// channel's own hue in sixths of a turn: a rise over the first sixth, the
/// upper level up to one half, a fall up to two thirds, the lower level after.
pub open spec fn hue_to_rgb_spec(p: int, q: int, h6: int) -> int {
    if h6 < unit() {
        p + round_div((q - p) * h6, unit())
    } else if h6 < 3 * unit() {
        q
    } else if h6 < 4 * unit() {
        p + round_div((q - p) * (4 * unit() - h6), unit())
    } else {
        p
    }
}

/// RGB of an HSL color. Red leads green by a third of a turn and blue trails
/// it by a third.
pub open spec fn hsl_to_rgb_spec(h: int, s: int, l: int) -> (int, int, int) {
    let q = hsl_upper(s, l);
    let p = 2 * l - q;
    (
        hue_to_rgb_spec(p, q, (6 * h + 2 * unit()) % (6 * unit())),
        hue_to_rgb_spec(p, q, (6 * h) % (6 * unit())),
        hue_to_rgb_spec(p, q, (6 * h + 4 * unit()) % (6 * unit())),
    )
}

/// HSL of an RGB color: lightness is the mean of the extremes, and
/// saturation divides by whichever of `max + min` and `2 - max - min` is
/// smaller. An achromatic color has hue and saturation zero.
pub open spec fn rgb_to_hsl_spec(r: int, g: int, b: int) -> (int, int, int) {
    let sum = max3(r, g, b) + min3(r, g, b);
    let d = max3(r, g, b) - min3(r, g, b);
    let l = round_div(sum, 2);
    if d == 0 {
        (0, 0, l)
    } else if sum > unit() {
        (rgb_hue(r, g, b), round_div(d * unit(), 2 * unit() - sum), l)
    } else {
        (rgb_hue(r, g, b), round_div(d * unit(), sum), l)
    }
}

/// The two levels of a valid HSL color are ordered valid fractions.
#[verifier::rlimit(40)]
pub proof fn lemma_hsl_levels(s: int, l: int)
    requires
        in_unit(s),
        in_unit(l),
    ensures
        0 <= 2 * l - hsl_upper(s, l) <= hsl_upper(s, l) <= unit(),
{
    let ls = round_div(l * s, unit());
    assert(0 <= l * s <= l * unit() && l * s <= s * unit()) by (nonlinear_arith)
        requires
            0 <= s <= unit(),
            0 <= l <= unit(),
    ;
    lemma_round_div_le(l * s, unit(), l);
    lemma_round_div_le(l * s, unit(), s);
    lemma_round_div_bounds(l * s, unit());
    if 2 * l > unit() {
        assert(2 * (l * s) + unit() >= 2 * unit() * (l + s - unit())) by (nonlinear_arith)
            requires
                0 <= s <= unit(),
                0 <= l <= unit(),
        ;
        assert(2 * (l * s) + 2 * unit() * (unit() - l) >= 2 * unit() * s - 2 * unit() * (2 * l
            - unit())) by (nonlinear_arith)
            requires
                0 <= s <= unit(),
                0 <= l <= unit(),
                2 * l > unit(),
        ;
    }
}

/// A channel of an HSL color lies between the two levels.
pub proof fn lemma_hue_to_rgb_bounds(p: int, q: int, h6: int)
    requires
        0 <= p <= q,
        0 <= h6 < 6 * unit(),
    ensures
        p <= hue_to_rgb_spec(p, q, h6) <= q,
{
    if h6 < unit() {
        assert(0 <= (q - p) * h6 <= (q - p) * unit()) by (nonlinear_arith)
            requires
                0 <= q - p,
                0 <= h6 <= unit(),
        ;
        lemma_round_div_le((q - p) * h6, unit(), q - p);
    } else if 3 * unit() <= h6 < 4 * unit() {
        let k = 4 * unit() - h6;
        assert(0 <= (q - p) * k <= (q - p) * unit()) by (nonlinear_arith)
            requires
                0 <= q - p,
                0 <= k <= unit(),
        ;
        lemma_round_div_le((q - p) * k, unit(), q - p);
    }
}

/// Every component of the RGB of a valid HSL color is a valid fraction.
pub proof fn lemma_hsl_to_rgb_in_unit(h: int, s: int, l: int)
    requires
        in_unit(h),
        in_unit(s),
        in_unit(l),
    ensures
        in_unit(hsl_to_rgb_spec(h, s, l).0),
        in_unit(hsl_to_rgb_spec(h, s, l).1),
        in_unit(hsl_to_rgb_spec(h, s, l).2),
{
    lemma_hsl_levels(s, l);
    let q = hsl_upper(s, l);
    let p = 2 * l - q;
    let turn = 6 * unit();
    lemma_hue_to_rgb_bounds(p, q, (6 * h + 2 * unit()) % turn);
    lemma_hue_to_rgb_bounds(p, q, (6 * h) % turn);
    lemma_hue_to_rgb_bounds(p, q, (6 * h + 4 * unit()) % turn);
}

/// Every component of the HSL of a valid RGB color is a valid fraction, and
/// the hue is short of a full turn.
pub proof fn lemma_rgb_to_hsl_in_unit(r: int, g: int, b: int)
    requires
        in_unit(r),
        in_unit(g),
        in_unit(b),
    ensures
        0 <= rgb_to_hsl_spec(r, g, b).0 < unit(),
        in_unit(rgb_to_hsl_spec(r, g, b).1),
        in_unit(rgb_to_hsl_spec(r, g, b).2),
{
    let sum = max3(r, g, b) + min3(r, g, b);
    let d = max3(r, g, b) - min3(r, g, b);
    lemma_round_div_le(sum, 2, unit());
    lemma_rgb_to_hsv_in_unit(r, g, b);
    if d != 0 {
        if sum > unit() {
            assert(d * unit() <= unit() * (2 * unit() - sum)) by (nonlinear_arith)
                requires
                    0 <= d <= 2 * unit() - sum,
            ;
            lemma_round_div_le(d * unit(), 2 * unit() - sum, unit());
        } else {
            assert(d * unit() <= unit() * sum) by (nonlinear_arith)
                requires
                    0 <= d <= sum,
            ;
            lemma_round_div_le(d * unit(), sum, unit());
        }
    }
}

/// Computes one channel of an HSL color.
pub fn hue_to_rgb(p: u32, q: u32, h6: u64) -> (x: u32)
    requires
        p <= q <= UNIT,
        h6 < 6 * UNIT,
    ensures
        x == hue_to_rgb_spec(p as int, q as int, h6 as int),
        p <= x <= q,
{
    proof {
        lemma_hue_to_rgb_bounds(p as int, q as int, h6 as int);
    }
    let u: u64 = UNIT as u64;
    let span: u64 = (q - p) as u64;
    if h6 < u {
        assert(span * h6 <= 306_000 * 306_000) by (nonlinear_arith)
            requires
                span <= 306_000,
                h6 <= 306_000,
        ;
        (p as u64 + div_round(span * h6, u)) as u32
    } else if h6 < 3 * u {
        q
    } else if h6 < 4 * u {
        let k: u64 = 4 * u - h6;
        assert(span * k <= 306_000 * 306_000) by (nonlinear_arith)
            requires
                span <= 306_000,
                k <= 306_000,
        ;
        (p as u64 + div_round(span * k, u)) as u32
    } else {
        p
    }
}

/// Converts HSL to RGB.
pub fn hsl_to_rgb(h: u32, s: u32, l: u32) -> (rgb: (u32, u32, u32))
    requires
        h <= UNIT,
        s <= UNIT,
        l <= UNIT,
    ensures
        (rgb.0 as int, rgb.1 as int, rgb.2 as int) == hsl_to_rgb_spec(h as int, s as int, l as int),
        rgb.0 <= UNIT,
        rgb.1 <= UNIT,
        rgb.2 <= UNIT,
{
    proof {
        lemma_hsl_levels(s as int, l as int);
        lemma_hsl_to_rgb_in_unit(h as int, s as int, l as int);
    }
    let u: u64 = UNIT as u64;
    assert(l as u64 * s as u64 <= 306_000 * 306_000) by (nonlinear_arith)
        requires
            l <= 306_000,
            s <= 306_000,
    ;
    let ls: u64 = div_round(l as u64 * s as u64, u);
    proof {
        assert(0 <= l * s <= l * unit() && l * s <= s * unit()) by (nonlinear_arith)
            requires
                0 <= s <= unit(),
                0 <= l <= unit(),
        ;
        lemma_round_div_le(l as int * s as int, unit(), l as int);
        lemma_round_div_le(l as int * s as int, unit(), s as int);
    }
    let q: u64 = if 2 * (l as u64) <= u {
        l as u64 + ls
    } else {
        l as u64 + s as u64 - ls
    };
    let p: u64 = 2 * (l as u64) - q;
    let turn: u64 = 6 * u;
    let h6: u64 = 6 * (h as u64);
    let r: u32 = hue_to_rgb(p as u32, q as u32, (h6 + 2 * u) % turn);
    let g: u32 = hue_to_rgb(p as u32, q as u32, h6 % turn);
    let b: u32 = hue_to_rgb(p as u32, q as u32, (h6 + 4 * u) % turn);
    (r, g, b)
}

/// Converts RGB to HSL.
pub fn rgb_to_hsl(r: u32, g: u32, b: u32) -> (hsl: (u32, u32, u32))
    requires
        r <= UNIT,
        g <= UNIT,
        b <= UNIT,
    ensures
        (hsl.0 as int, hsl.1 as int, hsl.2 as int) == rgb_to_hsl_spec(r as int, g as int, b as int),
        hsl.0 < UNIT,
        hsl.1 <= UNIT,
        hsl.2 <= UNIT,
{
    proof {
        lemma_rgb_to_hsl_in_unit(r as int, g as int, b as int);
    }
    let u: u64 = UNIT as u64;
    let mx: u64 = max_of3(r, g, b) as u64;
    let mn: u64 = min_of3(r, g, b) as u64;
    let sum: u64 = mx + mn;
    let d: u64 = mx - mn;
    let l: u32 = div_round(sum, 2) as u32;
    if d == 0 {
        (0, 0, l)
    } else if sum > u {
        (hue_of_rgb(r, g, b), div_round(d * u, 2 * u - sum) as u32, l)
    } else {
        (hue_of_rgb(r, g, b), div_round(d * u, sum) as u32, l)
    }
}

} // verus!
