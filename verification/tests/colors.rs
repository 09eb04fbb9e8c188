use picker::color::{channel, polar_rgb, Color, Model};
use picker::fixed::UNIT;
use picker::format::{color_from_bits, color_or_error, ColorFormat, Format, PickerState};

fn orange(alpha: u32) -> Color {
    Color::from_rgba_f32(UNIT, UNIT / 2, 0, alpha)
}

#[test]
fn pixel_rounds_half_up() {
    assert_eq!(orange(UNIT).pixel(), [255, 128, 0, 255]);
}

#[test]
fn channel_quantizes_to_eight_bits() {
    assert_eq!(channel(0), 0);
    assert_eq!(channel(UNIT), 255);
    assert_eq!(channel(UNIT / 2), 128);
    assert_eq!(channel(1200), 1);
    assert_eq!(channel(599), 0);
    assert_eq!(channel(600), 1);
}

#[test]
fn from_hsva_computes_rgb() {
    let c = Color::from_hsva_f32(25_500, UNIT, UNIT, UNIT);
    assert_eq!((c.red(), c.green(), c.blue()), (UNIT, UNIT / 2, 0));
    assert_eq!((c.hue(), c.saturation(), c.value(), c.alpha()), (25_500, UNIT, UNIT, UNIT));
    assert_eq!(c.model(), Model::Hsv);
}

#[test]
fn from_hsla_computes_rgb() {
    let c = Color::from_hsla_f32(25_500, UNIT, UNIT / 2, 1000);
    assert_eq!((c.red(), c.green(), c.blue()), (UNIT, UNIT / 2, 0));
    assert_eq!((c.hue(), c.saturation(), c.lightness(), c.alpha()), (25_500, UNIT, UNIT / 2, 1000));
    assert_eq!(c.model(), Model::Hsl);
    assert_eq!(c.level(), UNIT / 2);
}

#[test]
fn from_rgba_computes_hsv() {
    let c = orange(7);
    assert_eq!((c.hue(), c.saturation(), c.value(), c.alpha()), (25_500, UNIT, UNIT, 7));
    assert_eq!((c.red(), c.green(), c.blue()), (UNIT, UNIT / 2, 0));
}

#[test]
fn from_polar_follows_the_model() {
    let a = Color::from_polar(Model::Hsv, 0, UNIT, UNIT / 2, UNIT);
    assert_eq!((a.red(), a.green(), a.blue()), (UNIT / 2, 0, 0));
    let b = Color::from_polar(Model::Hsl, 0, UNIT, UNIT / 2, UNIT);
    assert_eq!((b.red(), b.green(), b.blue()), (UNIT, 0, 0));
    assert_eq!(polar_rgb(Model::Hsv, 0, UNIT, UNIT / 2), (UNIT / 2, 0, 0));
    assert_eq!(polar_rgb(Model::Hsl, 0, UNIT, UNIT / 2), (UNIT, 0, 0));
}

#[test]
fn setters_recompute_the_whole_rgb_triple() {
    let mut c = Color::from_hsva_f32(0, UNIT, UNIT, UNIT);
    c.set_hue(UNIT / 3);
    assert_eq!((c.red(), c.green(), c.blue()), (0, UNIT, 0));
    c.set_saturation(0);
    assert_eq!((c.red(), c.green(), c.blue()), (UNIT, UNIT, UNIT));
    c.set_value(UNIT / 2);
    assert_eq!((c.red(), c.green(), c.blue()), (UNIT / 2, UNIT / 2, UNIT / 2));
    c.set_saturation(UNIT);
    assert_eq!((c.red(), c.green(), c.blue()), (0, UNIT / 2, 0));
    assert_eq!((c.hue(), c.saturation(), c.value()), (UNIT / 3, UNIT, UNIT / 2));
}

#[test]
fn setters_keep_the_representations_coherent() {
    let mut c = orange(UNIT);
    c.set_hue(200_000);
    assert_eq!(
        (c.red(), c.green(), c.blue()),
        picker::convert::hsv_to_rgb(c.hue(), c.saturation(), c.value())
    );
    c.set_level(77_000);
    assert_eq!(
        (c.red(), c.green(), c.blue()),
        picker::convert::hsv_to_rgb(200_000, UNIT, 77_000)
    );
    let mut l = Color::from_hsla_f32(10_000, 20_000, 30_000, UNIT);
    l.set_lightness(250_000);
    assert_eq!(
        (l.red(), l.green(), l.blue()),
        picker::convert::hsl_to_rgb(10_000, 20_000, 250_000)
    );
}

#[test]
fn set_alpha_changes_nothing_else() {
    let mut c = orange(UNIT);
    c.set_alpha(1234);
    assert_eq!(c.alpha(), 1234);
    assert_eq!((c.red(), c.green(), c.blue()), (UNIT, UNIT / 2, 0));
    assert_eq!((c.hue(), c.saturation(), c.value()), (25_500, UNIT, UNIT));
}

#[test]
fn to_model_rederives_the_polar_triple() {
    let c = orange(UNIT).to_model(Model::Hsl);
    assert_eq!(c.model(), Model::Hsl);
    assert_eq!((c.hue(), c.saturation(), c.lightness()), (25_500, UNIT, UNIT / 2));
    assert_eq!((c.red(), c.green(), c.blue()), (UNIT, UNIT / 2, 0));
    let back = c.to_model(Model::Hsv);
    assert_eq!((back.hue(), back.saturation(), back.value()), (25_500, UNIT, UNIT));
    let same = back.to_model(Model::Hsv);
    assert_eq!((same.hue(), same.saturation(), same.value()), (25_500, UNIT, UNIT));
}

#[test]
fn hex_has_six_digits_when_opaque_and_eight_otherwise() {
    assert_eq!(orange(UNIT).to_hex_string(), "#ff8000");
    assert_eq!(orange(UNIT / 2).to_hex_string(), "#ff800080");
    assert_eq!(orange(0).to_hex_string(), "#ff800000");
    // Not quite opaque: the alpha byte is written even though it is ff.
    assert_eq!(orange(UNIT - 1).to_hex_string(), "#ff8000ff");
    assert_eq!(Color::from_rgba_f32(0, 12_000, 18_000, UNIT).to_hex_string(), "#000a0f");
}

#[test]
fn rgb_string() {
    assert_eq!(orange(UNIT).to_rgb_string(), "rgb(255, 128, 0)");
    assert_eq!(orange(UNIT / 2).to_rgb_string(), "rgba(255, 128, 0, 50%)");
    assert_eq!(orange(0).to_rgb_string(), "rgba(255, 128, 0, 0%)");
    assert_eq!(Color::from_rgba_f32(0, 12_000, 120_000, UNIT).to_rgb_string(), "rgb(0, 10, 100)");
}

#[test]
fn hsv_string() {
    assert_eq!(orange(UNIT).to_hsv_string(), "hsv(30deg, 100%, 100%)");
    assert_eq!(orange(UNIT / 2).to_hsv_string(), "hsva(30deg, 100%, 100%, 50%)");
    assert_eq!(Color::from_hsva_f32(UNIT / 2, UNIT / 4, 0, UNIT).to_hsv_string(), "hsv(180deg, 25%, 0%)");
    assert_eq!(
        Color::from_hsla_f32(25_500, UNIT, UNIT / 2, UNIT).to_hsv_string(),
        "hsv(30deg, 100%, 100%)"
    );
}

#[test]
fn degrees_round_halves_to_even() {
    assert_eq!(Color::from_hsva_f32(425, UNIT, UNIT, UNIT).to_hsv_string(), "hsv(0deg, 100%, 100%)");
    assert_eq!(Color::from_hsva_f32(1275, UNIT, UNIT, UNIT).to_hsv_string(), "hsv(2deg, 100%, 100%)");
    assert_eq!(Color::from_hsva_f32(426, UNIT, UNIT, UNIT).to_hsv_string(), "hsv(1deg, 100%, 100%)");
}

#[test]
fn hsl_string() {
    assert_eq!(orange(UNIT).to_hsl_string(), "hsl(30deg, 100%, 50%)");
    assert_eq!(orange(UNIT / 4).to_hsl_string(), "hsla(30deg, 100%, 50%, 25%)");
    assert_eq!(
        Color::from_hsla_f32(UNIT / 3, UNIT / 10, UNIT / 5, UNIT).to_hsl_string(),
        "hsl(120deg, 10%, 20%)"
    );
}

#[test]
fn vec_string() {
    assert_eq!(orange(UNIT).to_vec_string(), "vec3(1.00, 0.50, 0.00)");
    assert_eq!(orange(UNIT / 4).to_vec_string(), "vec4(1.00, 0.50, 0.00, 0.25)");
    assert_eq!(
        Color::from_rgba_f32(UNIT / 3, 3060, 275_400, UNIT).to_vec_string(),
        "vec3(0.33, 0.01, 0.90)"
    );
}

#[test]
fn format_dispatches_on_the_variant() {
    let c = orange(UNIT);
    assert_eq!(Format::Rgb.format(&c), "rgb(255, 128, 0)");
    assert_eq!(Format::Hex.format(&c), "#ff8000");
    assert_eq!(Format::Hsl.format(&c), "hsl(30deg, 100%, 50%)");
    assert_eq!(Format::Hsv.format(&c), "hsv(30deg, 100%, 100%)");
    assert_eq!(Format::Vec.format(&c), "vec3(1.00, 0.50, 0.00)");
}

#[test]
fn format_values_in_order() {
    assert_eq!(
        Format::values(),
        vec![Format::Rgb, Format::Hex, Format::Hsl, Format::Hsv, Format::Vec]
    );
}

#[test]
fn format_labels() {
    assert_eq!(Format::Rgb.label(), "RGB");
    assert_eq!(Format::Hex.label(), "HEX");
    assert_eq!(Format::Hsl.label(), "HSL");
    assert_eq!(Format::Hsv.label(), "HSV");
    assert_eq!(Format::Vec.label(), "VEC");
}

#[test]
fn parse_hex() {
    let c = Color::parse("#FF0000").unwrap();
    assert_eq!((c.red(), c.green(), c.blue(), c.alpha()), (UNIT, 0, 0, UNIT));
    assert_eq!(c.to_hex_string(), "#ff0000");
    assert_eq!(Color::parse("#f80").unwrap().to_hex_string(), "#ff8800");
    assert_eq!(Color::parse("#12345678").unwrap().to_hex_string(), "#12345678");
}

#[test]
fn parse_functions_and_names() {
    assert_eq!(Color::parse("rgb(255, 128, 0)").unwrap().to_rgb_string(), "rgb(255, 128, 0)");
    assert_eq!(
        Color::parse("rgba(255, 128, 0, 0.5)").unwrap().to_rgb_string(),
        "rgba(255, 128, 0, 50%)"
    );
    assert_eq!(Color::parse("rebeccapurple").unwrap().to_hex_string(), "#663399");
    assert_eq!(Color::parse("hsl(120, 100%, 50%)").unwrap().to_hex_string(), "#00ff00");
}

#[test]
fn parse_failure_carries_text_and_reason() {
    let e = Color::parse("not a color").unwrap_err();
    assert_eq!(e.text, "not a color");
    assert_eq!(e.reason, "ParseColorError");
    assert!(Color::parse("").is_err());
    assert!(Color::parse("#12").is_err());
    assert!(Color::parse("#ggg").is_err());
}

#[test]
fn color_from_bits_builds_from_single_precision() {
    let c = color_from_bits((1.0f32.to_bits(), 0.5f32.to_bits(), 0.0f32.to_bits(), 0.25f32.to_bits()));
    assert_eq!((c.red(), c.green(), c.blue(), c.alpha()), (UNIT, UNIT / 2, 0, UNIT / 4));
    assert_eq!(c.hue(), 25_500);
}

#[test]
fn color_format_reads_and_writes() {
    let cf = ColorFormat::from_str("#FF0000").unwrap();
    assert_eq!(cf.format, Format::Hex);
    assert_eq!(cf.to_string(), "#ff0000");
    let other = ColorFormat::new(cf.color, Format::Hsv);
    assert_eq!(other.to_string(), "hsv(0deg, 100%, 100%)");
    let e = ColorFormat::from_str("??").unwrap_err();
    assert_eq!(e.text, "??");
}

#[test]
fn picker_state_resets_to_the_initial_color() {
    let start = ColorFormat::from_str("#102030").unwrap();
    let mut state = PickerState::new(start);
    state.current_color.color.set_hue(0);
    state.current_color.format = Format::Rgb;
    assert_eq!(state.current_color.to_string(), "rgb(48, 16, 16)");
    state.reset();
    assert_eq!(state.current_color.to_string(), "#102030");
    assert_eq!(state.initial_color.to_string(), "#102030");
}

#[test]
fn color_or_error_maps_both_answers() {
    let found = Ok((1.0f32.to_bits(), 0.0f32.to_bits(), 0.0f32.to_bits(), 1.0f32.to_bits()));
    let c = color_or_error("red", found).unwrap();
    assert_eq!(c.to_hex_string(), "#ff0000");
    let e = color_or_error("rde", Err(String::from("no such color"))).unwrap_err();
    assert_eq!(e.text, "rde");
    assert_eq!(e.reason, "no such color");
}

#[test]
fn a_full_turn_of_hue_is_zero() {
    for s in [0, 1, 100_000, UNIT] {
        for x in [0, 1, 100_000, UNIT] {
            assert_eq!(
                picker::convert::hsv_to_rgb(UNIT, s, x),
                picker::convert::hsv_to_rgb(0, s, x)
            );
            assert_eq!(
                picker::convert::hsl_to_rgb(UNIT, s, x),
                picker::convert::hsl_to_rgb(0, s, x)
            );
        }
    }
}

#[test]
fn no_saturation_is_grey() {
    for h in [0, 51_000, 200_001, UNIT] {
        for x in [0, 1, 153_000, UNIT] {
            assert_eq!(picker::convert::hsv_to_rgb(h, 0, x), (x, x, x));
            assert_eq!(picker::convert::hsl_to_rgb(h, 0, x), (x, x, x));
        }
    }
}
