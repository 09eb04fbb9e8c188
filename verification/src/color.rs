//! The color value: one color held at once in RGB and in a polar model.

use vstd::prelude::*;
use crate::fixed::{UNIT, unit, in_unit, round_div, div_round, lemma_round_div_le};
use crate::convert::{hsv_to_rgb, rgb_to_hsv, hsl_to_rgb, rgb_to_hsl, hsv_to_rgb_spec,
    rgb_to_hsv_spec, hsl_to_rgb_spec, rgb_to_hsl_spec};

verus! {

/// The polar model that a color is held in beside RGB.
#[derive(Clone, Copy, Debug, PartialEq, Eq, Structural)]
pub enum Model {
    /// Hue, saturation, value.
    Hsv,
    /// Hue, saturation, lightness.
    Hsl,
}

/// What a `Color` stands for: its model and its eight components, each a
/// fixed-point fraction. `level` is the value of an HSV color and the
/// lightness of an HSL color.
pub ghost struct ColorView {
    pub model: Model,
    pub red: int,
    pub green: int,
    pub blue: int,
    pub hue: int,
    pub saturation: int,
    pub level: int,
    pub alpha: int,
}

/// RGB of a polar triple in the given model.
pub open spec fn polar_to_rgb(model: Model, h: int, s: int, x: int) -> (int, int, int) {
    match model {
        Model::Hsv => hsv_to_rgb_spec(h, s, x),
        Model::Hsl => hsl_to_rgb_spec(h, s, x),
    }
}

/// The polar triple of an RGB color in the given model.
pub open spec fn rgb_to_polar(model: Model, r: int, g: int, b: int) -> (int, int, int) {
    match model {
        Model::Hsv => rgb_to_hsv_spec(r, g, b),
        Model::Hsl => rgb_to_hsl_spec(r, g, b),
    }
}

/// An 8-bit channel of a fraction: `x * 255` rounded to nearest, halves
/// upward.
pub open spec fn quantize(x: int) -> int {
    round_div(x * 255, unit())
}

impl ColorView {
    /// Whether every component is a valid fraction.
    pub open spec fn in_range(self) -> bool {
        &&& in_unit(self.red)
        &&& in_unit(self.green)
        &&& in_unit(self.blue)
        &&& in_unit(self.hue)
        &&& in_unit(self.saturation)
        &&& in_unit(self.level)
        &&& in_unit(self.alpha)
    }

    /// Whether the two representations agree: the RGB triple is the
    /// conversion of the polar triple, or the polar triple that of the RGB.
    pub open spec fn coherent(self) -> bool {
        ||| (self.red, self.green, self.blue) == polar_to_rgb(
            self.model,
            self.hue,
            self.saturation,
            self.level,
        )
        ||| (self.hue, self.saturation, self.level) == rgb_to_polar(
            self.model,
            self.red,
            self.green,
            self.blue,
        )
    }

    /// The color with this polar triple in place of the old one and the RGB
    /// triple recomputed from it.
    pub open spec fn with_polar(self, h: int, s: int, x: int) -> ColorView {
        let rgb = polar_to_rgb(self.model, h, s, x);
        ColorView { red: rgb.0, green: rgb.1, blue: rgb.2, hue: h, saturation: s, level: x, ..self }
    }

    /// The four bytes of the color as a pixel: red, green, blue, alpha.
    pub open spec fn pixel(self) -> Seq<u8> {
        seq![
            quantize(self.red) as u8,
            quantize(self.green) as u8,
            quantize(self.blue) as u8,
            quantize(self.alpha) as u8,
        ]
    }
}

/// The color in `model` with the given polar triple and alpha.
pub open spec fn polar_color(model: Model, h: int, s: int, x: int, a: int) -> ColorView {
    let rgb = polar_to_rgb(model, h, s, x);
    ColorView {
        model,
        red: rgb.0,
        green: rgb.1,
        blue: rgb.2,
        hue: h,
        saturation: s,
        level: x,
        alpha: a,
    }
}

/// The color in `model` with the given RGB triple and alpha.
pub open spec fn rgb_color(model: Model, r: int, g: int, b: int, a: int) -> ColorView {
    let polar = rgb_to_polar(model, r, g, b);
    ColorView {
        model,
        red: r,
        green: g,
        blue: b,
        hue: polar.0,
        saturation: polar.1,
        level: polar.2,
        alpha: a,
    }
}

/// A color, held in RGB and in one polar model together with its alpha.
/// Every component is a fraction of `UNIT`. The two representations never
/// disagree: a mutation of a polar component recomputes the whole RGB triple.
#[derive(Clone, Copy, Debug)]
pub struct Color {
    model: Model,
    rgb: (u32, u32, u32),
    polar: (u32, u32, u32),
    a: u32,
}

impl View for Color {
    type V = ColorView;

    closed spec fn view(&self) -> ColorView {
        ColorView {
            model: self.model,
            red: self.rgb.0 as int,
            green: self.rgb.1 as int,
            blue: self.rgb.2 as int,
            hue: self.polar.0 as int,
            saturation: self.polar.1 as int,
            level: self.polar.2 as int,
            alpha: self.a as int,
        }
    }
}

/// The 8-bit channel of a valid fraction is a byte, zero for zero and 255
/// for one.
pub proof fn lemma_quantize_byte(x: int)
    requires
        in_unit(x),
    ensures
        0 <= quantize(x) <= 255,
        quantize(0) == 0,
        quantize(unit()) == 255,
{
    lemma_round_div_le(x * 255, unit(), 255);
}

/// The 8-bit channel of a fraction.
pub fn channel(x: u32) -> (byte: u8)
    requires
        x <= UNIT,
    ensures
        byte == quantize(x as int),
{
    proof {
        lemma_quantize_byte(x as int);
    }
    div_round(x as u64 * 255, UNIT as u64) as u8
}

/// Converts a polar triple to RGB in the given model.
pub fn polar_rgb(model: Model, h: u32, s: u32, x: u32) -> (rgb: (u32, u32, u32))
    requires
        h <= UNIT,
        s <= UNIT,
        x <= UNIT,
    ensures
        (rgb.0 as int, rgb.1 as int, rgb.2 as int) == polar_to_rgb(model, h as int, s as int, x as int),
        rgb.0 <= UNIT,
        rgb.1 <= UNIT,
        rgb.2 <= UNIT,
{
    match model {
        Model::Hsv => hsv_to_rgb(h, s, x),
        Model::Hsl => hsl_to_rgb(h, s, x),
    }
}

impl Color {
    #[verifier::type_invariant]
    spec fn inv(self) -> bool {
        self@.in_range() && self@.coherent()
    }

    /// The color in `model` with the given polar components; its RGB is
    /// computed from them.
    pub fn from_polar(model: Model, h: u32, s: u32, x: u32, a: u32) -> (c: Color)
        requires
            h <= UNIT,
            s <= UNIT,
            x <= UNIT,
            a <= UNIT,
        ensures
            c@ == polar_color(model, h as int, s as int, x as int, a as int),
            c@.in_range(),
            c@.coherent(),
    {
        Color { model, rgb: polar_rgb(model, h, s, x), polar: (h, s, x), a }
    }

    /// The HSV color with the given components; its RGB is computed from
    /// them. A caller that holds single-precision fractions converts each
    /// with `fraction_of_bits` first.
    pub fn from_hsva_f32(h: u32, s: u32, v: u32, a: u32) -> (c: Color)
        requires
            h <= UNIT,
            s <= UNIT,
            v <= UNIT,
            a <= UNIT,
        ensures
            c@ == polar_color(Model::Hsv, h as int, s as int, v as int, a as int),
            c@.in_range(),
            c@.coherent(),
    {
        Color { model: Model::Hsv, rgb: hsv_to_rgb(h, s, v), polar: (h, s, v), a }
    }

    /// The HSL color with the given components; its RGB is computed from
    /// them. A caller that holds single-precision fractions converts each
    /// with `fraction_of_bits` first.
    pub fn from_hsla_f32(h: u32, s: u32, l: u32, a: u32) -> (c: Color)
        requires
            h <= UNIT,
            s <= UNIT,
            l <= UNIT,
            a <= UNIT,
        ensures
            c@ == polar_color(Model::Hsl, h as int, s as int, l as int, a as int),
            c@.in_range(),
            c@.coherent(),
    {
        Color { model: Model::Hsl, rgb: hsl_to_rgb(h, s, l), polar: (h, s, l), a }
    }

    /// The color with the given RGB components, held beside them in HSV,
    /// which is computed from them. A caller that holds single-precision
    /// fractions converts each with `fraction_of_bits` first.
    pub fn from_rgba_f32(r: u32, g: u32, b: u32, a: u32) -> (c: Color)
        requires
            r <= UNIT,
            g <= UNIT,
            b <= UNIT,
            a <= UNIT,
        ensures
            c@ == rgb_color(Model::Hsv, r as int, g as int, b as int, a as int),
            c@.in_range(),
            c@.coherent(),
    {
        Color { model: Model::Hsv, rgb: (r, g, b), polar: rgb_to_hsv(r, g, b), a }
    }

    /// The same RGB color and alpha held in `model`: unchanged where that is
    /// its model already, else with the polar triple computed from its RGB.
    pub fn to_model(&self, model: Model) -> (c: Color)
        ensures
            c@ == if self@.model == model {
                self@
            } else {
                rgb_color(model, self@.red, self@.green, self@.blue, self@.alpha)
            },
            c@.in_range(),
            c@.coherent(),
    {
        proof {
            use_type_invariant(self);
        }
        match (self.model, model) {
            (Model::Hsv, Model::Hsl) => Color {
                model,
                rgb: self.rgb,
                polar: rgb_to_hsl(self.rgb.0, self.rgb.1, self.rgb.2),
                a: self.a,
            },
            (Model::Hsl, Model::Hsv) => Color {
                model,
                rgb: self.rgb,
                polar: rgb_to_hsv(self.rgb.0, self.rgb.1, self.rgb.2),
                a: self.a,
            },
            _ => *self,
        }
    }

    /// The polar model of this color.
    pub fn model(&self) -> (m: Model)
        ensures
            m == self@.model,
    {
        self.model
    }

    /// The red channel.
    pub fn red(&self) -> (x: u32)
        ensures
            x == self@.red,
            x <= UNIT,
    {
        proof {
            use_type_invariant(self);
        }
        self.rgb.0
    }

    /// The green channel.
    pub fn green(&self) -> (x: u32)
        ensures
            x == self@.green,
            x <= UNIT,
    {
        proof {
            use_type_invariant(self);
        }
        self.rgb.1
    }

    /// The blue channel.
    pub fn blue(&self) -> (x: u32)
        ensures
            x == self@.blue,
            x <= UNIT,
    {
        proof {
            use_type_invariant(self);
        }
        self.rgb.2
    }

    /// The hue, as a fraction of a turn.
    pub fn hue(&self) -> (x: u32)
        ensures
            x == self@.hue,
            x <= UNIT,
    {
        proof {
            use_type_invariant(self);
        }
        self.polar.0
    }

    /// The saturation in the color's own model.
    pub fn saturation(&self) -> (x: u32)
        ensures
            x == self@.saturation,
            x <= UNIT,
    {
        proof {
            use_type_invariant(self);
        }
        self.polar.1
    }

    /// The value of an HSV color.
    pub fn value(&self) -> (x: u32)
        requires
            self@.model == Model::Hsv,
        ensures
            x == self@.level,
            x <= UNIT,
    {
        proof {
            use_type_invariant(self);
        }
        self.polar.2
    }

    /// The lightness of an HSL color.
    pub fn lightness(&self) -> (x: u32)
        requires
            self@.model == Model::Hsl,
        ensures
            x == self@.level,
            x <= UNIT,
    {
        proof {
            use_type_invariant(self);
        }
        self.polar.2
    }

    /// The third polar component: value or lightness, by the model.
    pub fn level(&self) -> (x: u32)
        ensures
            x == self@.level,
            x <= UNIT,
    {
        proof {
            use_type_invariant(self);
        }
        self.polar.2
    }

    /// The alpha.
    pub fn alpha(&self) -> (x: u32)
        ensures
            x == self@.alpha,
            x <= UNIT,
    {
        proof {
            use_type_invariant(self);
        }
        self.a
    }

    /// Sets the hue and recomputes RGB from the whole polar triple.
    pub fn set_hue(&mut self, h: u32)
        requires
            h <= UNIT,
        ensures
            final(self)@ == old(self)@.with_polar(h as int, old(self)@.saturation, old(self)@.level),
            final(self)@.in_range(),
            final(self)@.coherent(),
    {
        proof {
            use_type_invariant(&*self);
        }
        let polar: (u32, u32, u32) = (h, self.polar.1, self.polar.2);
        let rgb: (u32, u32, u32) = polar_rgb(self.model, polar.0, polar.1, polar.2);
        *self = Color { model: self.model, rgb, polar, a: self.a };
    }

    /// Sets the saturation and recomputes RGB from the whole polar triple.
    pub fn set_saturation(&mut self, s: u32)
        requires
            s <= UNIT,
        ensures
            final(self)@ == old(self)@.with_polar(old(self)@.hue, s as int, old(self)@.level),
            final(self)@.in_range(),
            final(self)@.coherent(),
    {
        proof {
            use_type_invariant(&*self);
        }
        let polar: (u32, u32, u32) = (self.polar.0, s, self.polar.2);
        let rgb: (u32, u32, u32) = polar_rgb(self.model, polar.0, polar.1, polar.2);
        *self = Color { model: self.model, rgb, polar, a: self.a };
    }

    /// Sets the third polar component, value or lightness by the model, and
    /// recomputes RGB from the whole polar triple.
    pub fn set_level(&mut self, x: u32)
        requires
            x <= UNIT,
        ensures
            final(self)@ == old(self)@.with_polar(old(self)@.hue, old(self)@.saturation, x as int),
            final(self)@.in_range(),
            final(self)@.coherent(),
    {
        proof {
            use_type_invariant(&*self);
        }
        let polar: (u32, u32, u32) = (self.polar.0, self.polar.1, x);
        let rgb: (u32, u32, u32) = polar_rgb(self.model, polar.0, polar.1, polar.2);
        *self = Color { model: self.model, rgb, polar, a: self.a };
    }

    /// Sets the value of an HSV color and recomputes RGB.
    pub fn set_value(&mut self, v: u32)
        requires
            old(self)@.model == Model::Hsv,
            v <= UNIT,
        ensures
            final(self)@ == old(self)@.with_polar(old(self)@.hue, old(self)@.saturation, v as int),
            final(self)@.in_range(),
            final(self)@.coherent(),
    {
        self.set_level(v);
    }

    /// Sets the lightness of an HSL color and recomputes RGB.
    pub fn set_lightness(&mut self, l: u32)
        requires
            old(self)@.model == Model::Hsl,
            l <= UNIT,
        ensures
            final(self)@ == old(self)@.with_polar(old(self)@.hue, old(self)@.saturation, l as int),
            final(self)@.in_range(),
            final(self)@.coherent(),
    {
        self.set_level(l);
    }

    /// Sets the alpha; nothing else changes.
    pub fn set_alpha(&mut self, a: u32)
        requires
            a <= UNIT,
        ensures
            final(self)@ == (ColorView { alpha: a as int, ..old(self)@ }),
            final(self)@.in_range(),
            final(self)@.coherent(),
    {
        proof {
            use_type_invariant(&*self);
        }
        *self = Color { model: self.model, rgb: self.rgb, polar: self.polar, a };
    }

    /// The color as one RGBA pixel of 8-bit channels.
    pub fn pixel(&self) -> (px: [u8; 4])
        ensures
            px@ == self@.pixel(),
    {
        proof {
            use_type_invariant(self);
        }
        let px: [u8; 4] = [channel(self.rgb.0), channel(self.rgb.1), channel(self.rgb.2), channel(self.a)];
        assert(px@ =~= self@.pixel());
        px
    }
}

} // verus!
