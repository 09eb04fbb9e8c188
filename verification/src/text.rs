//! Text renderings of a color: hex, `rgb()`, `hsv()`, `hsl()` and a vector
//! literal. Alpha is left out of each where the color is fully opaque.

use vstd::prelude::*;
use vstd::string::*;
use crate::fixed::{UNIT, unit, round_div_even, div_round_even};
use crate::convert::{hsv_to_hsl, rgb_to_hsv, hsv_to_hsl_spec, rgb_to_hsv_spec};
use crate::color::{Color, ColorView, Model, quantize, channel};

verus! {

/// The sixteen lower-case digits of hexadecimal in order; the first ten are
/// the digits of decimal.
pub open spec fn digits() -> Seq<char> {
    seq!['0', '1', '2', '3', '4', '5', '6', '7', '8', '9', 'a', 'b', 'c', 'd', 'e', 'f']
}

/// A byte as two hexadecimal digits.
pub open spec fn hex2(b: int) -> Seq<char> {
    seq![digits()[b / 16], digits()[b % 16]]
}

/// A natural number in decimal, without leading zeros.
pub open spec fn decimal(n: nat) -> Seq<char>
    decreases n,
{
    if n < 10 {
        seq![digits()[n as int]]
    } else {
        decimal(n / 10) + seq![digits()[(n % 10) as int]]
    }
}

/// A fraction scaled by `scale` and rounded to a whole number, halves to
/// even: whole degrees for 360, whole percent for 100.
pub open spec fn scaled(x: int, scale: int) -> nat {
    round_div_even(x * scale, unit()) as nat
}

/// A fraction in decimal with two places after the point.
pub open spec fn fixed2(x: int) -> Seq<char> {
    let n = scaled(x, 100);
    decimal(n / 100) + seq!['.', digits()[(n / 10 % 10) as int], digits()[(n % 10) as int]]
}

/// Whether the color is fully opaque, so that its alpha is left unwritten.
pub open spec fn opaque_alpha(c: ColorView) -> bool {
    c.alpha == unit()
}

/// `#rrggbb`, or `#rrggbbaa` where the color is not fully opaque.
pub open spec fn hex_text(c: ColorView) -> Seq<char> {
    let rgb = seq!['#'] + hex2(quantize(c.red)) + hex2(quantize(c.green)) + hex2(quantize(c.blue));
    if opaque_alpha(c) {
        rgb
    } else {
        rgb + hex2(quantize(c.alpha))
    }
}

/// `rgb(r, g, b)` over the 8-bit channels, or `rgba(r, g, b, a%)` where the
/// color is not fully opaque, the percentage taken from the 8-bit alpha.
pub open spec fn rgb_text(c: ColorView) -> Seq<char> {
    let r = decimal(quantize(c.red) as nat);
    let g = decimal(quantize(c.green) as nat);
    let b = decimal(quantize(c.blue) as nat);
    if opaque_alpha(c) {
        "rgb("@ + r + ", "@ + g + ", "@ + b + ")"@
    } else {
        "rgba("@ + r + ", "@ + g + ", "@ + b + ", "@ + decimal(
            round_div_even(quantize(c.alpha) * 100, 255) as nat,
        ) + "%)"@
    }
}

/// A polar triple and alpha between `open` and a closing bracket: whole
/// degrees, then whole percentages, the alpha only where `with_alpha`.
pub open spec fn polar_text(open: Seq<char>, h: int, s: int, x: int, a: int, with_alpha: bool) -> Seq<char> {
    let body = open + decimal(scaled(h, 360)) + "deg, "@ + decimal(scaled(s, 100)) + "%, "@ + decimal(
        scaled(x, 100),
    );
    if with_alpha {
        body + "%, "@ + decimal(scaled(a, 100)) + "%)"@
    } else {
        body + "%)"@
    }
}

/// The HSV triple of a color: its own polar triple if it is held in HSV,
/// else the one computed from its RGB.
pub open spec fn hsv_of(c: ColorView) -> (int, int, int) {
    match c.model {
        Model::Hsv => (c.hue, c.saturation, c.level),
        Model::Hsl => rgb_to_hsv_spec(c.red, c.green, c.blue),
    }
}

/// The HSL triple of a color: its own polar triple if it is held in HSL,
/// else the one computed from its HSV triple.
pub open spec fn hsl_of(c: ColorView) -> (int, int, int) {
    match c.model {
        Model::Hsv => hsv_to_hsl_spec(c.hue, c.saturation, c.level),
        Model::Hsl => (c.hue, c.saturation, c.level),
    }
}

/// `hsv(Hdeg, S%, V%)`, or `hsva(Hdeg, S%, V%, A%)` where the color is not
/// fully opaque.
pub open spec fn hsv_text(c: ColorView) -> Seq<char> {
    let hsv = hsv_of(c);
    if opaque_alpha(c) {
        polar_text("hsv("@, hsv.0, hsv.1, hsv.2, c.alpha, false)
    } else {
        polar_text("hsva("@, hsv.0, hsv.1, hsv.2, c.alpha, true)
    }
}

/// `hsl(Hdeg, S%, L%)`, or `hsla(Hdeg, S%, L%, A%)` where the color is not
/// fully opaque.
pub open spec fn hsl_text(c: ColorView) -> Seq<char> {
    let hsl = hsl_of(c);
    if opaque_alpha(c) {
        polar_text("hsl("@, hsl.0, hsl.1, hsl.2, c.alpha, false)
    } else {
        polar_text("hsla("@, hsl.0, hsl.1, hsl.2, c.alpha, true)
    }
}

/// `vec3(r, g, b)` with two decimal places each, or `vec4(r, g, b, a)` where
/// the color is not fully opaque.
pub open spec fn vec_text(c: ColorView) -> Seq<char> {
    if opaque_alpha(c) {
        "vec3("@ + fixed2(c.red) + ", "@ + fixed2(c.green) + ", "@ + fixed2(c.blue) + ")"@
    } else {
        "vec4("@ + fixed2(c.red) + ", "@ + fixed2(c.green) + ", "@ + fixed2(c.blue) + ", "@ + fixed2(
            c.alpha,
        ) + ")"@
    }
}

/// Appends one digit, decimal or hexadecimal.
fn push_digit(out: &mut String, d: u8)
    requires
        d < 16,
    ensures
        final(out)@ == old(out)@ + seq![digits()[d as int]],
{
    let table: &str = "0123456789abcdef";
    proof {
        reveal_strlit("0123456789abcdef");
        assert(table@ =~= digits());
        assert(table.is_ascii());
    }
    let one: &str = table.substring_ascii(d as usize, d as usize + 1);
    assert(one@ =~= seq![digits()[d as int]]);
    out.append(one);
}

/// Appends a byte as two hexadecimal digits.
fn push_hex2(out: &mut String, b: u8)
    ensures
        final(out)@ == old(out)@ + hex2(b as int),
{
    push_digit(out, b / 16);
    push_digit(out, b % 16);
    assert(out@ =~= old(out)@ + hex2(b as int));
}

/// Appends a number in decimal.
fn push_decimal(out: &mut String, n: u32)
    ensures
        final(out)@ == old(out)@ + decimal(n as nat),
    decreases n,
{
    if n >= 10 {
        push_decimal(out, n / 10);
    }
    push_digit(out, (n % 10) as u8);
    assert(out@ =~= old(out)@ + decimal(n as nat));
}

/// Appends a fraction scaled and rounded to a whole number.
fn push_scaled(out: &mut String, x: u32, scale: u32)
    requires
        x <= UNIT,
        scale <= 1000,
    ensures
        final(out)@ == old(out)@ + decimal(scaled(x as int, scale as int)),
{
    assert(x as u64 * scale as u64 <= 306_000 * 1000) by (nonlinear_arith)
        requires
            x <= 306_000,
            scale <= 1000,
    ;
    let n: u64 = div_round_even(x as u64 * scale as u64, UNIT as u64);
    push_decimal(out, n as u32);
}

/// Appends a fraction with two decimal places.
fn push_fixed2(out: &mut String, x: u32)
    requires
        x <= UNIT,
    ensures
        final(out)@ == old(out)@ + fixed2(x as int),
{
    assert(x as u64 * 100 <= 306_000 * 100);
    let n: u64 = div_round_even(x as u64 * 100, UNIT as u64);
    push_decimal(out, (n / 100) as u32);
    out.append(".");
    push_digit(out, (n / 10 % 10) as u8);
    push_digit(out, (n % 10) as u8);
    proof {
        reveal_strlit(".");
        assert("."@ =~= seq!['.']);
        assert(out@ =~= old(out)@ + fixed2(x as int));
    }
}

/// Renders a polar triple between `open` and a closing bracket.
fn polar_string(open: &str, h: u32, s: u32, x: u32, a: u32, with_alpha: bool) -> (out: String)
    requires
        h <= UNIT,
        s <= UNIT,
        x <= UNIT,
        a <= UNIT,
    ensures
        out@ == polar_text(open@, h as int, s as int, x as int, a as int, with_alpha),
{
    let mut out: String = String::from_str(open);
    push_scaled(&mut out, h, 360);
    out.append("deg, ");
    push_scaled(&mut out, s, 100);
    out.append("%, ");
    push_scaled(&mut out, x, 100);
    if with_alpha {
        out.append("%, ");
        push_scaled(&mut out, a, 100);
    }
    out.append("%)");
    out
}

impl Color {
    /// The color in hexadecimal: six digits when fully opaque, eight
    /// otherwise.
    pub fn to_hex_string(&self) -> (out: String)
        ensures
            out@ == hex_text(self@),
            out@.len() == if self@.alpha == unit() {
                7int
            } else {
                9int
            },
    {
        let px: [u8; 4] = [
            channel(self.red()),
            channel(self.green()),
            channel(self.blue()),
            channel(self.alpha()),
        ];
        let mut out: String = String::from_str("#");
        proof {
            reveal_strlit("#");
            assert("#"@ =~= seq!['#']);
        }
        push_hex2(&mut out, px[0]);
        push_hex2(&mut out, px[1]);
        push_hex2(&mut out, px[2]);
        if self.alpha() != UNIT {
            push_hex2(&mut out, px[3]);
        }
        out
    }

    /// The color as `rgb(..)` or `rgba(..)`.
    pub fn to_rgb_string(&self) -> (out: String)
        ensures
            out@ == rgb_text(self@),
    {
        let px: [u8; 4] = [
            channel(self.red()),
            channel(self.green()),
            channel(self.blue()),
            channel(self.alpha()),
        ];
        if self.alpha() == UNIT {
            let mut out: String = String::from_str("rgb(");
            push_decimal(&mut out, px[0] as u32);
            out.append(", ");
            push_decimal(&mut out, px[1] as u32);
            out.append(", ");
            push_decimal(&mut out, px[2] as u32);
            out.append(")");
            out
        } else {
            let mut out: String = String::from_str("rgba(");
            push_decimal(&mut out, px[0] as u32);
            out.append(", ");
            push_decimal(&mut out, px[1] as u32);
            out.append(", ");
            push_decimal(&mut out, px[2] as u32);
            out.append(", ");
            let pct: u64 = div_round_even(px[3] as u64 * 100, 255);
            push_decimal(&mut out, pct as u32);
            out.append("%)");
            out
        }
    }

    /// The color as `hsv(..)` or `hsva(..)`.
    pub fn to_hsv_string(&self) -> (out: String)
        ensures
            out@ == hsv_text(self@),
    {
        let hsv: (u32, u32, u32) = match self.model() {
            Model::Hsv => (self.hue(), self.saturation(), self.level()),
            Model::Hsl => rgb_to_hsv(self.red(), self.green(), self.blue()),
        };
        if self.alpha() == UNIT {
            polar_string("hsv(", hsv.0, hsv.1, hsv.2, self.alpha(), false)
        } else {
            polar_string("hsva(", hsv.0, hsv.1, hsv.2, self.alpha(), true)
        }
    }

    /// The color as `hsl(..)` or `hsla(..)`.
    pub fn to_hsl_string(&self) -> (out: String)
        ensures
            out@ == hsl_text(self@),
    {
        let hsl: (u32, u32, u32) = match self.model() {
            Model::Hsv => hsv_to_hsl(self.hue(), self.saturation(), self.level()),
            Model::Hsl => (self.hue(), self.saturation(), self.level()),
        };
        if self.alpha() == UNIT {
            polar_string("hsl(", hsl.0, hsl.1, hsl.2, self.alpha(), false)
        } else {
            polar_string("hsla(", hsl.0, hsl.1, hsl.2, self.alpha(), true)
        }
    }

    /// The color as a `vec3(..)` or `vec4(..)` literal.
    pub fn to_vec_string(&self) -> (out: String)
        ensures
            out@ == vec_text(self@),
    {
        if self.alpha() == UNIT {
            let mut out: String = String::from_str("vec3(");
            push_fixed2(&mut out, self.red());
            out.append(", ");
            push_fixed2(&mut out, self.green());
            out.append(", ");
            push_fixed2(&mut out, self.blue());
            out.append(")");
            out
        } else {
            let mut out: String = String::from_str("vec4(");
            push_fixed2(&mut out, self.red());
            out.append(", ");
            push_fixed2(&mut out, self.green());
            out.append(", ");
            push_fixed2(&mut out, self.blue());
            out.append(", ");
            push_fixed2(&mut out, self.alpha());
            out.append(")");
            out
        }
    }
}

} // verus!
