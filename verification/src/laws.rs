//! What holds of a color taken through a polar model and back.
//!
//! Fixed-point conversion rounds, so a round trip is exact only up to a
//! tolerance. The tolerance is stated as a weighted distance: saturation
//! times the value, and hue times the chroma, come back within about half a
//! unit, so the closer a color is to grey or black the less its saturation
//! and hue are determined.

use vstd::prelude::*;
use crate::fixed::{unit, in_unit, round_div, lemma_round_div_bounds, lemma_round_div_exact,
    lemma_round_div_le};
use crate::convert::{chroma, hue_ramp, hue_numer, rgb_hue, max3, min3, hsv_to_rgb_spec,
    rgb_to_hsv_spec, lemma_hsv_parts, hsl_upper, hsl_to_rgb_spec, rgb_to_hsl_spec,
    hue_to_rgb_spec, lemma_hsl_levels};

verus! {

/// Whether `weight * (a - b)` is at most `slack` in magnitude.
pub open spec fn close(a: int, b: int, weight: int, slack: int) -> bool {
    -slack <= weight * (a - b) <= slack
}

/// Whether two hues are close either directly or across the wrap from a
/// full turn to zero.
pub open spec fn hue_close(a: int, b: int, weight: int, slack: int) -> bool {
    close(a, b, weight, slack) || close(a + unit(), b, weight, slack)
}

/// In a sixth where the middle channel rises with the hue: the hue read
/// back as `q` from the numerator `n` is close to the hue `h` that gave the
/// middle channel `x`.
proof fn lemma_hue_error_rising(c: int, x: int, t: int, q: int, h: int, a: int, n: int)
    requires
        c > 0,
        6 * h == a * unit() + t,
        2 * (unit() * x) <= 2 * (c * t) + unit() < 2 * (unit() * x) + 2 * unit(),
        n == a * c * unit() + x * unit(),
        2 * ((6 * c) * q) <= 2 * n + 6 * c < 2 * ((6 * c) * q) + 2 * (6 * c),
    ensures
        close(q, h, 12 * c, unit() + 6 * c),
{
    assert(12 * c * (q - h) == 2 * ((6 * c) * q) - 2 * (a * c * unit()) - 2 * (c * t)) by (nonlinear_arith)
        requires
            6 * h == a * unit() + t,
    ;
    assert(2 * n == 2 * (a * c * unit()) + 2 * (unit() * x)) by (nonlinear_arith)
        requires
            n == a * c * unit() + x * unit(),
    ;
}

/// The same in a sixth where the middle channel falls as the hue rises.
proof fn lemma_hue_error_falling(c: int, x: int, t: int, q: int, h: int, a: int, n: int)
    requires
        c > 0,
        6 * h == a * unit() - t,
        2 * (unit() * x) <= 2 * (c * t) + unit() < 2 * (unit() * x) + 2 * unit(),
        n == a * c * unit() - x * unit(),
        2 * ((6 * c) * q) <= 2 * n + 6 * c < 2 * ((6 * c) * q) + 2 * (6 * c),
    ensures
        close(q, h, 12 * c, unit() + 6 * c),
{
    assert(12 * c * (q - h) == 2 * ((6 * c) * q) - 2 * (a * c * unit()) + 2 * (c * t)) by (nonlinear_arith)
        requires
            6 * h == a * unit() - t,
    ;
    assert(2 * n == 2 * (a * c * unit()) - 2 * (unit() * x)) by (nonlinear_arith)
        requires
            n == a * c * unit() - x * unit(),
    ;
}

/// The RGB triple whose largest channel exceeds the smallest, `m`, by `c` and
/// whose middle channel exceeds it by `x`, arranged as in the `k`-th sixth of
/// the hue circle.
pub open spec fn sector_pattern(k: int, c: int, x: int, m: int) -> (int, int, int) {
    if k == 0 {
        (c + m, x + m, m)
    } else if k == 1 {
        (x + m, c + m, m)
    } else if k == 2 {
        (m, c + m, x + m)
    } else if k == 3 {
        (m, x + m, c + m)
    } else if k == 4 {
        (x + m, m, c + m)
    } else {
        (c + m, m, x + m)
    }
}

/// Where a hue `h` lies at distance `t` from the even end of the `k`-th
/// sixth of the circle, and the middle channel `x` is `c * t` rounded, the
/// hue read back from the pattern is within `(UNIT + 6c) / 12c` of `h`.
#[verifier::rlimit(40)]
pub proof fn lemma_sector_hue(k: int, c: int, x: int, m: int, t: int, h: int)
    requires
        0 <= k < 6,
        0 < c,
        0 <= x <= c,
        0 <= m,
        0 <= t <= unit(),
        0 <= h < unit(),
        k % 2 == 0 ==> 6 * h == k * unit() + t,
        k % 2 == 1 ==> 6 * h == (k + 1) * unit() - t,
        x == round_div(c * t, unit()),
    ensures
        ({
            let rgb = sector_pattern(k, c, x, m);
            hue_close(rgb_hue(rgb.0, rgb.1, rgb.2), h, 12 * c, unit() + 6 * c)
        }),
{
    let (r, g, b) = sector_pattern(k, c, x, m);
    assert(0 <= c * t) by (nonlinear_arith)
        requires
            0 <= c,
            0 <= t,
    ;
    lemma_round_div_bounds(c * t, unit());
    assert(max3(r, g, b) == c + m);
    assert(min3(r, g, b) == m);
    let n = hue_numer(r, g, b);
    let q = round_div(n, 6 * c);
    let back = rgb_hue(r, g, b);
    let slack = unit() + 6 * c;
    if k == 0 {
        assert(n == 0 * c * unit() + x * unit());
        lemma_round_div_bounds(n, 6 * c);
        lemma_hue_error_rising(c, x, t, q, h, 0, n);
    } else if k == 1 {
        assert(n == 2 * c * unit() - x * unit());
        lemma_round_div_bounds(n, 6 * c);
        lemma_hue_error_falling(c, x, t, q, h, 2, n);
    } else if k == 2 {
        assert(n == 2 * c * unit() + x * unit());
        lemma_round_div_bounds(n, 6 * c);
        lemma_hue_error_rising(c, x, t, q, h, 2, n);
    } else if k == 3 {
        assert(n == 4 * c * unit() - x * unit());
        lemma_round_div_bounds(n, 6 * c);
        lemma_hue_error_falling(c, x, t, q, h, 4, n);
    } else if k == 4 {
        assert(n == 4 * c * unit() + x * unit());
        lemma_round_div_bounds(n, 6 * c);
        lemma_hue_error_rising(c, x, t, q, h, 4, n);
    } else {
        let n2 = 6 * c * unit() - x * unit();
        let q2 = round_div(n2, 6 * c);
        lemma_round_div_bounds(n2, 6 * c);
        lemma_hue_error_falling(c, x, t, q2, h, 6, n2);
        if x == 0 {
            assert(n == 0);
            assert(n2 == unit() * (6 * c));
            lemma_round_div_exact(unit(), 6 * c);
            assert(q2 == unit());
            lemma_round_div_exact(0, 6 * c);
            assert(0 * (6 * c) == 0);
            assert(q == 0);
            assert(back == 0);
            assert(close(back + unit(), h, 12 * c, slack));
        } else {
            assert(n == n2);
        }
    }
    if q >= unit() {
        assert(back + unit() == q);
    }
}

/// The hue of the RGB of an HSV color with positive chroma comes back within
/// `(UNIT + 6c) / 12c` of the hue that went in, where `c` is the chroma.
pub proof fn lemma_hsv_hue_round_trip(h: int, s: int, v: int)
    requires
        0 <= h < unit(),
        in_unit(s),
        in_unit(v),
        chroma(s, v) > 0,
    ensures
        ({
            let rgb = hsv_to_rgb_spec(h, s, v);
            hue_close(rgb_hue(rgb.0, rgb.1, rgb.2), h, 12 * chroma(s, v), unit() + 6 * chroma(s, v))
        }),
{
    lemma_hsv_parts(h, s, v);
    let c = chroma(s, v);
    let t = hue_ramp(h);
    let x = round_div(c * t, unit());
    let m = v - c;
    let h6 = 6 * h;
    let k: int = if h6 <= unit() {
        0
    } else if h6 <= 2 * unit() {
        1
    } else if h6 <= 3 * unit() {
        2
    } else if h6 <= 4 * unit() {
        3
    } else if h6 <= 5 * unit() {
        4
    } else {
        5
    };
    assert(hsv_to_rgb_spec(h, s, v) == sector_pattern(k, c, x, m));
    lemma_sector_hue(k, c, x, m, t, h);
}

/// Which sixth of the circle a hue lies in, counted from zero.
pub open spec fn sixth_of(h: int) -> int {
    6 * h / unit()
}

/// How far a hue lies from the even end of its sixth, in sixths.
pub open spec fn ramp_of(h: int) -> int {
    let k = sixth_of(h);
    if k % 2 == 0 {
        6 * h - k * unit()
    } else {
        (k + 1) * unit() - 6 * h
    }
}

/// The channels of the RGB of an HSL color are its lower level, its upper
/// level, and in between the lower level plus the rounded share of their
/// difference, arranged by the sixth of the circle that the hue lies in.
#[verifier::rlimit(40)]
pub proof fn lemma_hsl_pattern(h: int, s: int, l: int)
    requires
        0 <= h < unit(),
        in_unit(s),
        in_unit(l),
    ensures
        ({
            let q = hsl_upper(s, l);
            let p = 2 * l - q;
            let x = round_div((q - p) * ramp_of(h), unit());
            &&& 0 <= p <= q <= unit()
            &&& 0 <= sixth_of(h) < 6
            &&& 0 <= ramp_of(h) <= unit()
            &&& 0 <= x <= q - p
            &&& hsl_to_rgb_spec(h, s, l) == sector_pattern(sixth_of(h), q - p, x, p)
        }),
{
    lemma_hsl_levels(s, l);
    let q = hsl_upper(s, l);
    let p = 2 * l - q;
    let d = q - p;
    let t = ramp_of(h);
    let h6 = 6 * h;
    let k = sixth_of(h);
    let turn = 6 * unit();
    assert(0 <= k < 6 && k * unit() <= h6 < (k + 1) * unit());
    assert(0 <= t <= unit());
    assert(0 <= d * t <= d * unit()) by (nonlinear_arith)
        requires
            0 <= d,
            0 <= t <= unit(),
    ;
    lemma_round_div_le(d * t, unit(), d);
    let x = round_div(d * t, unit());
    let red = hue_to_rgb_spec(p, q, (h6 + 2 * unit()) % turn);
    let green = hue_to_rgb_spec(p, q, h6 % turn);
    let blue = hue_to_rgb_spec(p, q, (h6 + 4 * unit()) % turn);
    assert(h6 % turn == h6);
    if k == 0 {
        assert((h6 + 2 * unit()) % turn == h6 + 2 * unit());
        assert((h6 + 4 * unit()) % turn == h6 + 4 * unit());
        assert(red == q && green == p + x && blue == p);
    } else if k == 1 {
        assert((h6 + 2 * unit()) % turn == h6 + 2 * unit());
        assert((h6 + 4 * unit()) % turn == h6 + 4 * unit());
        assert(4 * unit() - (h6 + 2 * unit()) == t);
        assert(red == p + x && green == q && blue == p);
    } else if k == 2 {
        assert((h6 + 2 * unit()) % turn == h6 + 2 * unit());
        assert((h6 + 4 * unit()) % turn == h6 - 2 * unit());
        assert(red == p && green == q && blue == p + x);
    } else if k == 3 {
        assert((h6 + 2 * unit()) % turn == h6 + 2 * unit());
        assert((h6 + 4 * unit()) % turn == h6 - 2 * unit());
        assert(red == p && green == p + x && blue == q);
    } else if k == 4 {
        assert((h6 + 2 * unit()) % turn == h6 - 4 * unit());
        assert((h6 + 4 * unit()) % turn == h6 - 2 * unit());
        assert(red == p + x && green == p && blue == q);
    } else {
        assert((h6 + 2 * unit()) % turn == h6 - 4 * unit());
        assert((h6 + 4 * unit()) % turn == h6 - 2 * unit());
        assert(4 * unit() - (h6 - 2 * unit()) == t);
        assert(red == q && green == p && blue == p + x);
    }
}

/// The hue of the RGB of an HSL color whose two levels differ comes back
/// within `(UNIT + 6d) / 12d` of the hue that went in, where `d` is the
/// difference of the levels.
pub proof fn lemma_hsl_hue_round_trip(h: int, s: int, l: int)
    requires
        0 <= h < unit(),
        in_unit(s),
        in_unit(l),
        hsl_upper(s, l) > l,
    ensures
        ({
            let rgb = hsl_to_rgb_spec(h, s, l);
            let d = 2 * (hsl_upper(s, l) - l);
            hue_close(rgb_hue(rgb.0, rgb.1, rgb.2), h, 12 * d, unit() + 6 * d)
        }),
{
    lemma_hsl_pattern(h, s, l);
    let q = hsl_upper(s, l);
    let p = 2 * l - q;
    let d = q - p;
    let x = round_div(d * ramp_of(h), unit());
    lemma_sector_hue(sixth_of(h), d, x, p, ramp_of(h), h);
}

/// Twice the distance of a lightness from the nearer pole.
pub open spec fn pole_distance(l: int) -> int {
    if 2 * l <= unit() {
        2 * l
    } else {
        2 * unit() - 2 * l
    }
}

/// The saturation read back from the two levels of an HSL color is within
/// `(2 UNIT + w) / 2w` of the saturation that went in, where `w` is the
/// distance of the lightness from the nearer pole, doubled.
#[verifier::rlimit(40)]
pub proof fn lemma_hsl_saturation_back(s: int, l: int)
    requires
        in_unit(s),
        in_unit(l),
    ensures
        ({
            let d = 2 * (hsl_upper(s, l) - l);
            let w = pole_distance(l);
            let back = if d == 0 {
                0
            } else {
                round_div(d * unit(), w)
            };
            &&& d > 0 ==> w > 0
            &&& close(back, s, 2 * w, 2 * unit() + w)
        }),
{
    lemma_hsl_levels(s, l);
    let d = 2 * (hsl_upper(s, l) - l);
    let w = pole_distance(l);
    let ls = round_div(l * s, unit());
    assert(0 <= l * s) by (nonlinear_arith)
        requires
            0 <= l,
            0 <= s,
    ;
    lemma_round_div_bounds(l * s, unit());
    let ws = w * s;
    assert(ws == if 2 * l <= unit() {
        2 * (l * s)
    } else {
        2 * unit() * s - 2 * (l * s)
    }) by (nonlinear_arith)
        requires
            ws == w * s,
            w == pole_distance(l),
    ;
    // Twice the difference of the levels, in units, is within two units of
    // the saturation weighted by the pole distance.
    assert(2 * ws - 2 * unit() <= 2 * (d * unit()) <= 2 * ws + 2 * unit());
    if d > 0 {
        if w == 0 {
            assert(false);
        }
        let back = round_div(d * unit(), w);
        assert(0 <= d * unit());
        lemma_round_div_bounds(d * unit(), w);
        assert(2 * w * (back - s) == 2 * (w * back) - 2 * ws) by (nonlinear_arith)
            requires
                ws == w * s,
        ;
    } else {
        assert(2 * w * (0 - s) == -2 * ws) by (nonlinear_arith)
            requires
                ws == w * s,
        ;
    }
}

/// An HSV color taken to RGB and back keeps its value exactly; its
/// saturation comes back within `(UNIT + v) / 2v` where the value `v` is
/// positive, and its hue within `(UNIT + 6c) / 12c` where the chroma `c` is
/// positive. A black color has lost its saturation, and a grey one its hue.
#[verifier::rlimit(40)]
pub proof fn lemma_hsv_round_trip(h: int, s: int, v: int)
    requires
        0 <= h < unit(),
        in_unit(s),
        in_unit(v),
    ensures
        ({
            let rgb = hsv_to_rgb_spec(h, s, v);
            let back = rgb_to_hsv_spec(rgb.0, rgb.1, rgb.2);
            let c = chroma(s, v);
            &&& back.2 == v
            &&& v > 0 ==> close(back.1, s, 2 * v, unit() + v)
            &&& c > 0 ==> hue_close(back.0, h, 12 * c, unit() + 6 * c)
        }),
{
    lemma_hsv_parts(h, s, v);
    let c = chroma(s, v);
    let rgb = hsv_to_rgb_spec(h, s, v);
    let (r, g, b) = rgb;
    assert(max3(r, g, b) == v);
    assert(min3(r, g, b) == v - c);
    if v > 0 {
        let s2 = round_div(c * unit(), v);
        assert(0 <= v * s) by (nonlinear_arith)
            requires
                0 <= v,
                0 <= s,
        ;
        lemma_round_div_bounds(v * s, unit());
        assert(0 <= c * unit()) by (nonlinear_arith)
            requires
                0 <= c,
        ;
        lemma_round_div_bounds(c * unit(), v);
        assert(2 * v * (s2 - s) == 2 * (v * s2) - 2 * (v * s)) by (nonlinear_arith);
        assert(unit() * c == c * unit()) by (nonlinear_arith);
    }
    if c > 0 {
        lemma_hsv_hue_round_trip(h, s, v);
    }
}

/// An HSL color taken to RGB and back keeps its lightness exactly; its
/// saturation comes back within `(2 UNIT + w) / 2w`, where `w` is twice the
/// distance of the lightness from the nearer pole, and its hue within
/// `(UNIT + 6d) / 12d` where the two levels differ by a positive `d`. A black
/// or white color has lost its saturation, and a grey one its hue.
#[verifier::rlimit(40)]
pub proof fn lemma_hsl_round_trip(h: int, s: int, l: int)
    requires
        0 <= h < unit(),
        in_unit(s),
        in_unit(l),
    ensures
        ({
            let rgb = hsl_to_rgb_spec(h, s, l);
            let back = rgb_to_hsl_spec(rgb.0, rgb.1, rgb.2);
            let d = 2 * (hsl_upper(s, l) - l);
            let w = pole_distance(l);
            &&& back.2 == l
            &&& close(back.1, s, 2 * w, 2 * unit() + w)
            &&& d > 0 ==> hue_close(back.0, h, 12 * d, unit() + 6 * d)
        }),
{
    lemma_hsl_pattern(h, s, l);
    lemma_hsl_saturation_back(s, l);
    let q = hsl_upper(s, l);
    let p = 2 * l - q;
    let (r, g, b) = hsl_to_rgb_spec(h, s, l);
    assert(max3(r, g, b) == q);
    assert(min3(r, g, b) == p);
    assert(round_div(2 * l, 2) == l);
    if q > l {
        lemma_hsl_hue_round_trip(h, s, l);
    }
}

/// Hue wraps: a full turn gives the RGB that a hue of zero gives, in either
/// model.
pub proof fn lemma_full_turn(s: int, x: int)
    requires
        in_unit(s),
        in_unit(x),
    ensures
        hsv_to_rgb_spec(unit(), s, x) == hsv_to_rgb_spec(0, s, x),
        hsl_to_rgb_spec(unit(), s, x) == hsl_to_rgb_spec(0, s, x),
{
    let c = chroma(s, x);
    assert(unit() == 306_000);
    assert((6 * 0int) % 612_000 == 0);
    assert(1_836_000int % 612_000 == 0);
    assert(hue_ramp(0) == 0);
    assert(hue_ramp(unit()) == 0);
    assert(c * 0 == 0) by (nonlinear_arith);
    assert(round_div(0, unit()) == 0);
}

/// A color without saturation is grey in either model: every channel is the
/// value, or the lightness.
pub proof fn lemma_unsaturated_is_grey(h: int, x: int)
    requires
        in_unit(h),
        in_unit(x),
    ensures
        hsv_to_rgb_spec(h, 0, x) == (x, x, x),
        hsl_to_rgb_spec(h, 0, x) == (x, x, x),
{
    assert(0 * unit() == 0);
    lemma_round_div_exact(0, unit());
    assert(x * 0 == 0) by (nonlinear_arith);
    assert(chroma(0, x) == 0);
    assert(0 * hue_ramp(h) == 0) by (nonlinear_arith);
    assert(hsl_upper(0, x) == x);
    assert forall|k: int| #[trigger] ((x - x) * k) == 0 by {
        assert((x - x) * k == 0) by (nonlinear_arith);
    }
    let turn = 6 * unit();
    assert(hue_to_rgb_spec(x, x, (6 * h + 2 * unit()) % turn) == x);
    assert(hue_to_rgb_spec(x, x, (6 * h) % turn) == x);
    assert(hue_to_rgb_spec(x, x, (6 * h + 4 * unit()) % turn) == x);
}

} // verus!
