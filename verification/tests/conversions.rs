use picker::convert::{hsl_to_rgb, hsv_to_hsl, hue_of_rgb, max_of3, min_of3, rgb_to_hsl, rgb_to_hsv};
use picker::fixed::{div_round, div_round_even, UNIT};
use picker::single::{fraction_of_bits, power_of_two};

fn fx(x: f64) -> u32 {
    (x * UNIT as f64).round() as u32
}

fn dist(a: u32, b: u32) -> i64 {
    (a as i64 - b as i64).abs()
}

fn hue_dist(a: u32, b: u32) -> i64 {
    let d = dist(a, b);
    d.min(UNIT as i64 - d)
}

#[test]
fn hsv_to_rgb() {
    assert_eq!(
        picker::convert::hsv_to_rgb(fx(30.0 / 360.0), fx(1.0), fx(1.0)),
        (fx(1.0), fx(0.5), fx(0.0))
    );
    assert_eq!(
        picker::convert::hsv_to_rgb(fx(60.0 / 360.0), fx(0.5), fx(0.75)),
        (fx(0.75), fx(0.75), fx(0.375))
    );
}

#[test]
fn hsv_to_rgb_known_values_in_units() {
    assert_eq!(picker::convert::hsv_to_rgb(25_500, 306_000, 306_000), (306_000, 153_000, 0));
    assert_eq!(picker::convert::hsv_to_rgb(51_000, 153_000, 229_500), (229_500, 229_500, 114_750));
}

#[test]
fn hsv_to_rgb_primary_hues() {
    let u = UNIT;
    assert_eq!(picker::convert::hsv_to_rgb(0, u, u), (u, 0, 0));
    assert_eq!(picker::convert::hsv_to_rgb(u / 3, u, u), (0, u, 0));
    assert_eq!(picker::convert::hsv_to_rgb(2 * u / 3, u, u), (0, 0, u));
    assert_eq!(picker::convert::hsv_to_rgb(u / 2, u, u), (0, u, u));
    assert_eq!(picker::convert::hsv_to_rgb(5 * u / 6, u, u), (u, 0, u));
}

#[test]
fn hsv_to_rgb_sector_boundary_belongs_to_lower_sector() {
    // One sixth of a turn exactly: the first sector's arrangement, with the
    // middle channel risen to the chroma.
    let u = UNIT;
    assert_eq!(picker::convert::hsv_to_rgb(u / 6, u, u), (u, u, 0));
    assert_eq!(picker::convert::hsv_to_rgb(u / 6 + 1, u, u), (u - 6, u, 0));
}

#[test]
fn hsv_to_rgb_full_turn_is_red() {
    assert_eq!(picker::convert::hsv_to_rgb(UNIT, UNIT, UNIT), (UNIT, 0, 0));
}

#[test]
fn hsv_to_rgb_grey_and_black() {
    assert_eq!(picker::convert::hsv_to_rgb(123_456, 0, 200_000), (200_000, 200_000, 200_000));
    assert_eq!(picker::convert::hsv_to_rgb(123_456, UNIT, 0), (0, 0, 0));
}

#[test]
fn rgb_to_hsv_known_values() {
    let u = UNIT;
    assert_eq!(rgb_to_hsv(u, u / 2, 0), (25_500, u, u));
    assert_eq!(rgb_to_hsv(229_500, 229_500, 114_750), (51_000, 153_000, 229_500));
    assert_eq!(rgb_to_hsv(0, u, 0), (u / 3, u, u));
    assert_eq!(rgb_to_hsv(0, 0, u), (2 * u / 3, u, u));
    assert_eq!(rgb_to_hsv(u, 0, u), (5 * u / 6, u, u));
}

#[test]
fn rgb_to_hsv_achromatic_has_zero_hue_and_saturation() {
    assert_eq!(rgb_to_hsv(100_000, 100_000, 100_000), (0, 0, 100_000));
    assert_eq!(rgb_to_hsv(0, 0, 0), (0, 0, 0));
}

#[test]
fn rgb_to_hsv_hue_below_red_wraps_into_last_sector() {
    // Red with a little blue: just short of a full turn.
    let (h, s, v) = rgb_to_hsv(UNIT, 0, 6);
    assert_eq!(h, UNIT - 1);
    assert_eq!(s, UNIT);
    assert_eq!(v, UNIT);
}

#[test]
fn hue_of_rgb_matches_rgb_to_hsv() {
    assert_eq!(hue_of_rgb(UNIT, UNIT / 2, 0), 25_500);
    assert_eq!(hue_of_rgb(7, 7, 7), 0);
}

#[test]
fn max_and_min_of_three() {
    assert_eq!(max_of3(1, 3, 2), 3);
    assert_eq!(max_of3(3, 1, 2), 3);
    assert_eq!(max_of3(1, 2, 3), 3);
    assert_eq!(min_of3(1, 3, 2), 1);
    assert_eq!(min_of3(3, 1, 2), 1);
    assert_eq!(min_of3(3, 2, 1), 1);
}

#[test]
fn hsv_to_hsl_known_values() {
    let u = UNIT;
    assert_eq!(hsv_to_hsl(25_500, u, u), (25_500, u, u / 2));
    assert_eq!(hsv_to_hsl(0, 0, u), (0, 0, u));
    assert_eq!(hsv_to_hsl(0, u, 0), (0, 0, 0));
    // v = 0.5, s = 0.5: l = 0.375, s' = 0.125 / 0.375 = 1/3.
    assert_eq!(hsv_to_hsl(0, u / 2, u / 2), (0, 102_000, 114_750));
}

#[test]
fn hsl_to_rgb_known_values() {
    let u = UNIT;
    assert_eq!(hsl_to_rgb(0, u, u / 2), (u, 0, 0));
    assert_eq!(hsl_to_rgb(u / 3, u, u / 2), (0, u, 0));
    assert_eq!(hsl_to_rgb(2 * u / 3, u, u / 2), (0, 0, u));
    assert_eq!(hsl_to_rgb(25_500, u, u / 2), (u, u / 2, 0));
    assert_eq!(hsl_to_rgb(77_777, 0, 200_000), (200_000, 200_000, 200_000));
    assert_eq!(hsl_to_rgb(0, u, u), (u, u, u));
    assert_eq!(hsl_to_rgb(0, u, 0), (0, 0, 0));
    // l = 0.75, s = 0.5: upper level 0.875, lower 0.625.
    assert_eq!(hsl_to_rgb(0, u / 2, 229_500), (267_750, 191_250, 191_250));
}

#[test]
fn rgb_to_hsl_known_values() {
    let u = UNIT;
    assert_eq!(rgb_to_hsl(u, 0, 0), (0, u, u / 2));
    assert_eq!(rgb_to_hsl(u, u / 2, 0), (25_500, u, u / 2));
    assert_eq!(rgb_to_hsl(267_750, 191_250, 191_250), (0, u / 2, 229_500));
    assert_eq!(rgb_to_hsl(50_000, 50_000, 50_000), (0, 0, 50_000));
    assert_eq!(rgb_to_hsl(u, u, u), (0, 0, u));
}

#[test]
fn hsv_round_trip_on_a_grid() {
    let u = UNIT as i64;
    let steps: [u32; 9] = [0, 1, 25_500, 51_000, 100_001, 153_000, 229_500, 305_999, 306_000];
    for &h in steps.iter() {
        if h == UNIT {
            continue;
        }
        for &s in steps.iter() {
            for &v in steps.iter() {
                let (r, g, b) = picker::convert::hsv_to_rgb(h, s, v);
                let (h2, s2, v2) = rgb_to_hsv(r, g, b);
                assert_eq!(v2, v);
                let c = max_of3(r, g, b) as i64 - min_of3(r, g, b) as i64;
                if v > 0 {
                    assert!(2 * v as i64 * dist(s2, s) <= u + v as i64);
                }
                if c > 0 {
                    assert!(12 * c * hue_dist(h2, h) <= u + 6 * c);
                }
            }
        }
    }
}

#[test]
fn hsv_round_trip_is_exact_at_full_saturation_and_value() {
    for h in (0..UNIT).step_by(997) {
        let (r, g, b) = picker::convert::hsv_to_rgb(h, UNIT, UNIT);
        assert_eq!(rgb_to_hsv(r, g, b), (h, UNIT, UNIT));
    }
}

#[test]
fn hsl_round_trip_on_a_grid() {
    let u = UNIT as i64;
    let steps: [u32; 9] = [0, 1, 25_500, 51_000, 100_001, 153_000, 229_500, 305_999, 306_000];
    for &h in steps.iter() {
        if h == UNIT {
            continue;
        }
        for &s in steps.iter() {
            for &l in steps.iter() {
                let (r, g, b) = hsl_to_rgb(h, s, l);
                let (h2, s2, l2) = rgb_to_hsl(r, g, b);
                assert_eq!(l2, l);
                let d = max_of3(r, g, b) as i64 - min_of3(r, g, b) as i64;
                let w = if 2 * l as i64 <= u { 2 * l as i64 } else { 2 * u - 2 * l as i64 };
                assert!(2 * w * dist(s2, s) <= 2 * u + w);
                if d > 0 {
                    assert!(12 * d * hue_dist(h2, h) <= u + 6 * d);
                }
            }
        }
    }
}

#[test]
fn hsl_round_trip_is_exact_at_full_saturation_and_half_lightness() {
    for h in (0..UNIT).step_by(991) {
        let (r, g, b) = hsl_to_rgb(h, UNIT, UNIT / 2);
        assert_eq!(rgb_to_hsl(r, g, b), (h, UNIT, UNIT / 2));
    }
}

#[test]
fn div_round_rounds_halves_upward() {
    assert_eq!(div_round(1, 2), 1);
    assert_eq!(div_round(3, 2), 2);
    assert_eq!(div_round(5, 2), 3);
    assert_eq!(div_round(7, 3), 2);
    assert_eq!(div_round(8, 3), 3);
    assert_eq!(div_round(0, 5), 0);
}

#[test]
fn div_round_even_rounds_halves_to_even() {
    assert_eq!(div_round_even(1, 2), 0);
    assert_eq!(div_round_even(3, 2), 2);
    assert_eq!(div_round_even(5, 2), 2);
    assert_eq!(div_round_even(7, 2), 4);
    assert_eq!(div_round_even(7, 3), 2);
    assert_eq!(div_round_even(8, 3), 3);
}

#[test]
fn fraction_of_bits_reads_single_precision() {
    assert_eq!(fraction_of_bits(1.0f32.to_bits()), UNIT);
    assert_eq!(fraction_of_bits(0.5f32.to_bits()), UNIT / 2);
    assert_eq!(fraction_of_bits(0.25f32.to_bits()), UNIT / 4);
    assert_eq!(fraction_of_bits(0.375f32.to_bits()), 114_750);
    assert_eq!(fraction_of_bits((128.0f32 / 255.0).to_bits()), 153_600);
    assert_eq!(fraction_of_bits(0.0f32.to_bits()), 0);
}

#[test]
fn fraction_of_bits_holds_to_the_unit_interval() {
    assert_eq!(fraction_of_bits((-1.0f32).to_bits()), 0);
    assert_eq!(fraction_of_bits((-0.0f32).to_bits()), 0);
    assert_eq!(fraction_of_bits(2.0f32.to_bits()), UNIT);
    assert_eq!(fraction_of_bits(f32::INFINITY.to_bits()), UNIT);
    assert_eq!(fraction_of_bits(f32::NAN.to_bits()), 0);
    assert_eq!(fraction_of_bits(f32::MIN_POSITIVE.to_bits()), 0);
    assert_eq!(fraction_of_bits(1), 0);
    assert_eq!(fraction_of_bits(1.0e-6f32.to_bits()), 0);
    assert_eq!(fraction_of_bits(1.0e-5f32.to_bits()), 3);
}

#[test]
fn fraction_of_bits_agrees_with_float_rounding() {
    let mut x: f32 = 0.0;
    while x <= 1.0 {
        let want = (x as f64 * UNIT as f64).round() as u32;
        assert_eq!(fraction_of_bits(x.to_bits()), want);
        x += 0.001_953_125;
    }
}

#[test]
fn power_of_two_values() {
    assert_eq!(power_of_two(0), 1);
    assert_eq!(power_of_two(10), 1024);
    assert_eq!(power_of_two(62), 1u64 << 62);
}
