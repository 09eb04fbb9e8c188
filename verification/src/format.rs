//! The text formats a color can be written in, a color paired with its
//! format, and the reading of a color from CSS text.

use vstd::prelude::*;
use vstd::string::*;
use crate::color::{Color, ColorView, Model, rgb_color};
use crate::single::{single_fraction, fraction_of_bits};
use crate::text::{rgb_text, hex_text, hsl_text, hsv_text, vec_text};

verus! {

/// A text format.
#[derive(Clone, Copy, Debug, PartialEq, Eq, Structural)]
pub enum Format {
    /// `rgb(..)`.
    Rgb,
    /// `#rrggbb`.
    Hex,
    /// `hsl(..)`.
    Hsl,
    /// `hsv(..)`.
    Hsv,
    /// `vec3(..)`.
    Vec,
}

/// A color in the given format.
pub open spec fn format_text(format: Format, c: ColorView) -> Seq<char> {
    match format {
        Format::Rgb => rgb_text(c),
        Format::Hex => hex_text(c),
        Format::Hsl => hsl_text(c),
        Format::Hsv => hsv_text(c),
        Format::Vec => vec_text(c),
    }
}

/// The name a format is shown under.
pub open spec fn format_label(format: Format) -> Seq<char> {
    match format {
        Format::Rgb => "RGB"@,
        Format::Hex => "HEX"@,
        Format::Hsl => "HSL"@,
        Format::Hsv => "HSV"@,
        Format::Vec => "VEC"@,
    }
}

impl Format {
    /// Writes a color in this format.
    pub fn format(&self, color: &Color) -> (out: String)
        ensures
            out@ == format_text(*self, color@),
    {
        match self {
            Format::Rgb => color.to_rgb_string(),
            Format::Hex => color.to_hex_string(),
            Format::Hsl => color.to_hsl_string(),
            Format::Hsv => color.to_hsv_string(),
            Format::Vec => color.to_vec_string(),
        }
    }

    /// Every format, in the order they are offered in.
    pub fn values() -> (all: Vec<Format>)
        ensures
            all@ == seq![Format::Rgb, Format::Hex, Format::Hsl, Format::Hsv, Format::Vec],
    {
        let mut all: Vec<Format> = Vec::new();
        all.push(Format::Rgb);
        all.push(Format::Hex);
        all.push(Format::Hsl);
        all.push(Format::Hsv);
        all.push(Format::Vec);
        assert(all@ =~= seq![Format::Rgb, Format::Hex, Format::Hsl, Format::Hsv, Format::Vec]);
        all
    }

    /// The name this format is shown under.
    pub fn label(&self) -> (name: &'static str)
        ensures
            name@ == format_label(*self),
    {
        match self {
            Format::Rgb => "RGB",
            Format::Hex => "HEX",
            Format::Hsl => "HSL",
            Format::Hsv => "HSV",
            Format::Vec => "VEC",
        }
    }
}

/// Why a text was not read as a color.
#[derive(Debug)]
pub struct ParseError {
    /// The text that was rejected.
    pub text: String,
    /// What the parser said of it.
    pub reason: String,
}

/// The four channels that `css_color`'s `FromStr` for `Srgb` finds in a
/// text, red, green, blue and alpha, each as a fraction of `UNIT`; `None`
/// where it rejects the text. Nothing is claimed of which texts it accepts.
pub uninterp spec fn css_srgb(text: Seq<char>) -> Option<(int, int, int, int)>;

/// The error of `css_color`'s parser: opaque, it says only that parsing
/// failed.
#[verifier::external_type_specification]
#[verifier::external_body]
pub struct ExParseColorError(css_color::ParseColorError);

/// The fractions that four single-precision bit patterns stand for.
pub open spec fn fractions_of(bits: (u32, u32, u32, u32)) -> (int, int, int, int) {
    (
        single_fraction(bits.0),
        single_fraction(bits.1),
        single_fraction(bits.2),
        single_fraction(bits.3),
    )
}

/// Calls `css_color`'s `FromStr` for `Srgb` and hands out the bit patterns
/// of the four channels it found. The parser is a pure function of the
/// text, so the contract gives the channels it finds a name, as fractions,
/// in which every NaN reads alike, and claims nothing more of them.
#[verifier::external_body]
fn parse_srgb(text: &str) -> (r: Result<(u32, u32, u32, u32), css_color::ParseColorError>)
    ensures
        match r {
            Ok(bits) => css_srgb(text@) == Some(fractions_of(bits)),
            Err(_) => css_srgb(text@) is None,
        },
{
    match text.parse::<css_color::Srgb>() {
        Ok(c) => Ok((c.red.to_bits(), c.green.to_bits(), c.blue.to_bits(), c.alpha.to_bits())),
        Err(e) => Err(e),
    }
}

/// Renders `css_color`'s parse error with its derived `Debug`, which for
/// this field-less struct writes the type's name.
#[verifier::external_body]
fn describe(e: &css_color::ParseColorError) -> (reason: String)
    ensures
        reason@ == "ParseColorError"@,
{
    format!("{:?}", e)
}

/// The color of four channels, red, green, blue and alpha, held beside its
/// RGB in HSV.
pub open spec fn color_of(channels: (int, int, int, int)) -> ColorView {
    rgb_color(Model::Hsv, channels.0, channels.1, channels.2, channels.3)
}

/// Builds the color of four channels given as single-precision bit
/// patterns: red, green, blue, alpha.
pub fn color_from_bits(bits: (u32, u32, u32, u32)) -> (c: Color)
    ensures
        c@ == color_of(fractions_of(bits)),
        c@.in_range(),
        c@.coherent(),
{
    Color::from_rgba_f32(
        fraction_of_bits(bits.0),
        fraction_of_bits(bits.1),
        fraction_of_bits(bits.2),
        fraction_of_bits(bits.3),
    )
}

/// What reading `text` gives once the parser has answered: the color of the
/// channels it found, or, where it found none, an error that carries the
/// text and the parser's reason.
pub open spec fn read_as(
    text: Seq<char>,
    found: Option<(int, int, int, int)>,
    reason: Seq<char>,
    r: Result<Color, ParseError>,
) -> bool {
    match found {
        Some(channels) => r is Ok && r->Ok_0@ == color_of(channels),
        None => r is Err && r->Err_0.text@ == text && r->Err_0.reason@ == reason,
    }
}

/// Turns the parser's answer for `text` into a color or an error: the
/// channels it found become a color, and its reason becomes an error that
/// carries the text.
pub fn color_or_error(text: &str, found: Result<(u32, u32, u32, u32), String>) -> (r: Result<
    Color,
    ParseError,
>)
    ensures
        match found {
            Ok(bits) => read_as(text@, Some(fractions_of(bits)), Seq::empty(), r),
            Err(reason) => read_as(text@, None, reason@, r),
        },
        r is Ok ==> r->Ok_0@.in_range() && r->Ok_0@.coherent(),
{
    match found {
        Ok(bits) => Ok(color_from_bits(bits)),
        Err(reason) => Err(ParseError { text: String::from_str(text), reason }),
    }
}

impl Color {
    /// Reads a color from CSS text: hex, `rgb()`, `rgba()`, a named color
    /// and the other forms of CSS Color 4.
    pub fn parse(text: &str) -> (r: Result<Color, ParseError>)
        ensures
            read_as(text@, css_srgb(text@), "ParseColorError"@, r),
            r is Ok ==> r->Ok_0@.in_range() && r->Ok_0@.coherent(),
    {
        match parse_srgb(text) {
            Ok(bits) => color_or_error(text, Ok(bits)),
            Err(e) => color_or_error(text, Err(describe(&e))),
        }
    }
}

/// A color together with the format it is written in.
#[derive(Clone, Copy, Debug)]
pub struct ColorFormat {
    /// The color.
    pub color: Color,
    /// The format.
    pub format: Format,
}

impl ColorFormat {
    /// Pairs a color with a format.
    pub fn new(color: Color, format: Format) -> (cf: ColorFormat)
        ensures
            cf.color == color,
            cf.format == format,
    {
        ColorFormat { color, format }
    }

    /// The color written in its format.
    pub fn to_string(&self) -> (out: String)
        ensures
            out@ == format_text(self.format, self.color@),
    {
        self.format.format(&self.color)
    }

    /// Reads a color from CSS text and pairs it with the hex format.
    pub fn from_str(s: &str) -> (r: Result<ColorFormat, ParseError>)
        ensures
            match css_srgb(s@) {
                Some(channels) => r is Ok && r->Ok_0.color@ == color_of(channels) && r->Ok_0.format
                    == Format::Hex,
                None => r is Err && r->Err_0.text@ == s@ && r->Err_0.reason@ == "ParseColorError"@,
            },
    {
        match Color::parse(s) {
            Ok(color) => Ok(ColorFormat::new(color, Format::Hex)),
            Err(e) => Err(e),
        }
    }
}

/// A command to the window.
#[derive(Clone, Copy, Debug, PartialEq, Eq, Structural)]
pub enum Action {
    /// Print the current color and quit.
    Commit,
    /// Quit without printing.
    Abort,
    /// Take the current color back to the initial one.
    Reset,
    /// Any other command.
    Other,
}

/// What the caller is to do after a command.
#[derive(Clone, Copy, Debug, PartialEq, Eq, Structural)]
pub struct Outcome {
    /// Whether to print the current color.
    pub print: bool,
    /// Whether to quit.
    pub quit: bool,
    /// Whether to hand the command on to the widgets.
    pub propagate: bool,
}

/// What the caller is to do after each command.
pub open spec fn outcome_of(action: Action) -> Outcome {
    match action {
        Action::Commit => Outcome { print: true, quit: true, propagate: false },
        Action::Abort => Outcome { print: false, quit: true, propagate: false },
        Action::Reset => Outcome { print: false, quit: false, propagate: true },
        Action::Other => Outcome { print: false, quit: false, propagate: true },
    }
}

/// The color that was started from and the color as it is now.
#[derive(Clone, Copy, Debug)]
pub struct PickerState {
    /// The color that was started from.
    pub initial_color: ColorFormat,
    /// The color as it is now.
    pub current_color: ColorFormat,
}

impl PickerState {
    /// The state in which the current color is the initial one.
    pub fn new(color: ColorFormat) -> (state: PickerState)
        ensures
            state.initial_color == color,
            state.current_color == color,
    {
        PickerState { initial_color: color, current_color: color }
    }

    /// Takes the current color back to the initial one.
    pub fn reset(&mut self)
        ensures
            final(self).initial_color == old(self).initial_color,
            final(self).current_color == old(self).initial_color,
    {
        self.current_color = self.initial_color;
    }

    /// Carries out a command: a reset takes the current color back to the
    /// initial one, and nothing else changes the state.
    pub fn command(&mut self, action: Action) -> (outcome: Outcome)
        ensures
            outcome == outcome_of(action),
            final(self).initial_color == old(self).initial_color,
            final(self).current_color == if action == Action::Reset {
                old(self).initial_color
            } else {
                old(self).current_color
            },
    {
        match action {
            Action::Commit => Outcome { print: true, quit: true, propagate: false },
            Action::Abort => Outcome { print: false, quit: true, propagate: false },
            Action::Reset => {
                self.reset();
                Outcome { print: false, quit: false, propagate: true }
            },
            Action::Other => Outcome { print: false, quit: false, propagate: true },
        }
    }
}

} // verus!
