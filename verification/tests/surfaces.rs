use picker::color::Color;
use picker::fixed::UNIT;
use picker::pickers::{AlphaPicker, HuePicker, PickerSurface, SatLightPicker, SatValuePicker};
use picker::raster::draw;
use picker::shape::{clamp_coord, Circle, Point, Rect, ShapeHelpExt, Size};
use picker::surface::{map_axis, react, Capture, Phase, PointerEvent, Reaction, Surface, PX};

fn at(x: i64, y: i64) -> Point {
    Point { x: x * PX, y: y * PX }
}

fn plane() -> SatValuePicker {
    let mut p = SatValuePicker::new();
    p.resize(200 * PX, 200 * PX);
    p
}

fn mid_hsv() -> Color {
    Color::from_hsva_f32(0, UNIT / 2, UNIT / 2, UNIT)
}

fn mid_hsl() -> Color {
    Color::from_hsla_f32(0, UNIT / 2, UNIT / 2, UNIT)
}

#[test]
fn plane_corners_value_variant() {
    let mut p = plane();
    let mut c = mid_hsv();
    p.event(PointerEvent::Down(at(0, 0)), &mut c);
    assert_eq!((c.saturation(), c.value()), (0, UNIT));
    p.event(PointerEvent::Down(at(200, 200)), &mut c);
    assert_eq!((c.saturation(), c.value()), (UNIT, 0));
    p.event(PointerEvent::Down(at(50, 150)), &mut c);
    assert_eq!((c.saturation(), c.value()), (UNIT / 4, UNIT / 4));
}

#[test]
fn plane_corners_lightness_variant() {
    let mut p = SatLightPicker::new();
    p.resize(200 * PX, 200 * PX);
    let mut c = mid_hsl();
    p.event(PointerEvent::Down(at(0, 0)), &mut c);
    assert_eq!((c.saturation(), c.lightness()), (0, 0));
    p.event(PointerEvent::Down(at(200, 200)), &mut c);
    assert_eq!((c.saturation(), c.lightness()), (UNIT, UNIT));
    p.event(PointerEvent::Down(at(50, 150)), &mut c);
    assert_eq!((c.saturation(), c.lightness()), (UNIT / 4, 3 * UNIT / 4));
}

#[test]
fn positions_outside_the_surface_saturate() {
    let p = plane();
    let mut a = mid_hsv();
    let mut b = mid_hsv();
    p.set(at(-50, 100), &mut a);
    p.set(at(0, 100), &mut b);
    assert_eq!((a.saturation(), a.value()), (b.saturation(), b.value()));
    assert_eq!(a.saturation(), 0);
    p.set(at(300, 100), &mut a);
    p.set(at(200, 100), &mut b);
    assert_eq!((a.saturation(), a.value()), (b.saturation(), b.value()));
    assert_eq!(a.saturation(), UNIT);
    p.set(at(100, -1), &mut a);
    assert_eq!(a.value(), UNIT);
    p.set(at(100, 1000), &mut a);
    assert_eq!(a.value(), 0);
}

#[test]
fn map_axis_clamps_then_divides() {
    assert_eq!(map_axis(-50, 200), 0);
    assert_eq!(map_axis(0, 200), 0);
    assert_eq!(map_axis(50, 200), UNIT / 4);
    assert_eq!(map_axis(200, 200), UNIT);
    assert_eq!(map_axis(300, 200), UNIT);
    assert_eq!(map_axis(1, 3), 102_000);
    assert_eq!(map_axis(i64::MIN, 1), 0);
    assert_eq!(map_axis(i64::MAX, 1), UNIT);
}

#[test]
fn drag_mutates_on_down_and_on_each_move_only() {
    let mut p = plane();
    let mut c = mid_hsv();
    let mut mutations = 0;
    let events = [
        PointerEvent::Down(at(10, 10)),
        PointerEvent::Move(at(20, 20)),
        PointerEvent::Move(at(30, 30)),
        PointerEvent::Up,
    ];
    for e in events.iter() {
        if p.event(*e, &mut c).mutated {
            mutations += 1;
        }
    }
    assert_eq!(mutations, 3);
    assert_eq!(p.phase(), Phase::Idle);
    assert_eq!(c.saturation(), map_axis(30 * PX, 200 * PX));
    let before = (c.saturation(), c.value());
    let r = p.event(PointerEvent::Move(at(150, 150)), &mut c);
    assert!(!r.mutated);
    assert!(r.hover);
    assert_eq!((c.saturation(), c.value()), before);
}

#[test]
fn reactions() {
    let p = at(1, 1);
    assert_eq!(
        react(Phase::Idle, PointerEvent::Down(p)),
        Reaction { capture: Capture::Take, hover: false, mutated: true }
    );
    assert_eq!(
        react(Phase::Idle, PointerEvent::Move(p)),
        Reaction { capture: Capture::Keep, hover: true, mutated: false }
    );
    assert_eq!(
        react(Phase::Dragging, PointerEvent::Move(p)),
        Reaction { capture: Capture::Keep, hover: true, mutated: true }
    );
    assert_eq!(
        react(Phase::Dragging, PointerEvent::Up),
        Reaction { capture: Capture::Release, hover: false, mutated: false }
    );
    assert_eq!(
        react(Phase::Idle, PointerEvent::Up),
        Reaction { capture: Capture::Release, hover: false, mutated: false }
    );
    assert_eq!(
        react(Phase::Dragging, PointerEvent::Other),
        Reaction { capture: Capture::Keep, hover: false, mutated: false }
    );
}

#[test]
fn surface_state_machine() {
    let mut s = Surface::new();
    assert_eq!(s.phase(), Phase::Idle);
    assert_eq!(s.extent(), Size { width: 0, height: 0 });
    s.resize(130, 64);
    assert_eq!(s.extent(), Size { width: 130, height: 64 });
    assert_eq!((s.columns(), s.rows()), (2, 1));
    assert_eq!(s.advance(PointerEvent::Move(at(1, 2))), None);
    assert_eq!(s.advance(PointerEvent::Up), None);
    assert_eq!(s.phase(), Phase::Idle);
    assert_eq!(s.advance(PointerEvent::Down(at(1, 2))), Some(at(1, 2)));
    assert_eq!(s.phase(), Phase::Dragging);
    assert_eq!(s.advance(PointerEvent::Other), None);
    assert_eq!(s.phase(), Phase::Dragging);
    assert_eq!(s.advance(PointerEvent::Move(at(3, 4))), Some(at(3, 4)));
    assert_eq!(s.advance(PointerEvent::Up), None);
    assert_eq!(s.phase(), Phase::Idle);
    s.resize(5, 5);
    assert_eq!(s.phase(), Phase::Idle);
}

#[test]
fn release_without_movement_returns_to_idle() {
    let mut p = HuePicker::new();
    p.resize(18 * PX, 198 * PX);
    let mut c = mid_hsv();
    assert!(p.event(PointerEvent::Down(at(5, 99)), &mut c).mutated);
    assert_eq!(p.phase(), Phase::Dragging);
    assert_eq!(c.hue(), UNIT / 2);
    assert!(!p.event(PointerEvent::Up, &mut c).mutated);
    assert_eq!(p.phase(), Phase::Idle);
}

#[test]
fn hue_slider_maps_top_to_zero() {
    let mut p = HuePicker::new();
    p.resize(18 * PX, 200 * PX);
    let mut c = Color::from_hsva_f32(0, UNIT, UNIT, UNIT);
    p.set(at(9, 0), &mut c);
    assert_eq!(c.hue(), 0);
    p.set(at(9, 50), &mut c);
    assert_eq!(c.hue(), UNIT / 4);
    p.set(at(-100, 400), &mut c);
    assert_eq!(c.hue(), UNIT);
    assert_eq!((c.red(), c.green(), c.blue()), (UNIT, 0, 0));
}

#[test]
fn alpha_slider_maps_top_to_opaque() {
    let mut p = AlphaPicker::new();
    p.resize(18 * PX, 200 * PX);
    let mut c = mid_hsv();
    p.set(at(9, 0), &mut c);
    assert_eq!(c.alpha(), UNIT);
    p.set(at(9, 50), &mut c);
    assert_eq!(c.alpha(), 3 * UNIT / 4);
    p.set(at(9, 999), &mut c);
    assert_eq!(c.alpha(), 0);
    assert_eq!((c.hue(), c.saturation(), c.value()), (0, UNIT / 2, UNIT / 2));
}

#[test]
fn plane_render_is_row_major_rgba() {
    let mut p = SatValuePicker::new();
    p.resize(4 * PX + 10, 2 * PX + 63);
    let c = Color::from_hsva_f32(0, UNIT, UNIT, UNIT / 3);
    let buf = p.render(&c);
    assert_eq!(buf.len(), 4 * 2 * 4);
    assert_eq!(&buf[0..4], &[255, 255, 255, 255]);
    assert_eq!(&buf[24..28], &[128, 64, 64, 255]);
    // Last pixel of the first row: saturation 3/4, value 1.
    assert_eq!(&buf[12..16], &[255, 64, 64, 255]);
}

#[test]
fn lightness_plane_render_is_not_inverted() {
    let mut p = SatLightPicker::new();
    p.resize(2 * PX, 2 * PX);
    let c = Color::from_hsla_f32(0, UNIT, UNIT / 2, UNIT);
    let buf = p.render(&c);
    assert_eq!(buf.len(), 16);
    assert_eq!(&buf[0..4], &[0, 0, 0, 255]);
    // Second row: lightness one half; second column: saturation one half.
    assert_eq!(&buf[8..12], &[128, 128, 128, 255]);
    assert_eq!(&buf[12..16], &[191, 64, 64, 255]);
}

#[test]
fn hue_render_has_uniform_rows() {
    let mut p = HuePicker::new();
    p.resize(2 * PX, 3 * PX);
    let c = Color::from_hsva_f32(12_345, UNIT, UNIT, 0);
    let buf = p.render(&c);
    assert_eq!(
        buf,
        vec![
            255, 0, 0, 255, 255, 0, 0, 255, //
            0, 255, 0, 255, 0, 255, 0, 255, //
            0, 0, 255, 255, 0, 0, 255, 255,
        ]
    );
}

#[test]
fn alpha_render_fades_downward() {
    let mut p = AlphaPicker::new();
    p.resize(PX, 4 * PX);
    let c = Color::from_hsva_f32(0, UNIT, UNIT, UNIT / 2);
    let buf = p.render(&c);
    assert_eq!(buf, vec![255, 0, 0, 255, 255, 0, 0, 191, 255, 0, 0, 128, 255, 0, 0, 64]);
}

#[test]
fn render_of_an_unsized_surface_is_empty() {
    let p = SatValuePicker::new();
    assert_eq!(p.render(&mid_hsv()), Vec::<u8>::new());
    assert_eq!(p.extent(), Size { width: 0, height: 0 });
}

#[test]
fn draw_asks_for_each_pixel_in_row_major_order() {
    let buf = draw(3, 2, |x, y| [x as u8, y as u8, (10 * y + x) as u8, 255]);
    assert_eq!(
        buf,
        vec![
            0, 0, 0, 255, 1, 0, 1, 255, 2, 0, 2, 255, //
            0, 1, 10, 255, 1, 1, 11, 255, 2, 1, 12, 255,
        ]
    );
    assert_eq!(draw(0, 5, |_, _| [1, 2, 3, 4]), Vec::<u8>::new());
    assert_eq!(draw(5, 0, |_, _| [1, 2, 3, 4]), Vec::<u8>::new());
}

#[test]
fn plane_indicator_stays_inside_at_the_extreme() {
    let p = plane();
    let c = Color::from_hsva_f32(0, UNIT, UNIT, UNIT);
    let m = p.indicator(&c);
    assert_eq!(m.shape, Circle { center: Point { x: 12_448, y: 352 }, radius: 224 });
    assert_eq!(m.shadow, Circle { center: Point { x: 12_448, y: 416 }, radius: 224 });
    let reach = m.shape.radius + 64;
    for circle in [m.shape, m.shadow].iter() {
        assert!(circle.center.x - reach >= 0);
        assert!(circle.center.y - reach >= 0);
        assert!(circle.center.x + reach <= 200 * PX);
        assert!(circle.center.y + reach <= 200 * PX);
    }
}

#[test]
fn plane_indicator_follows_the_color() {
    let p = plane();
    let m = p.indicator(&mid_hsv());
    assert_eq!(m.shape.center, at(100, 100));
    let mut l = SatLightPicker::new();
    l.resize(200 * PX, 200 * PX);
    let m = l.indicator(&Color::from_hsla_f32(0, UNIT / 4, UNIT / 4, UNIT));
    assert_eq!(m.shape.center, at(50, 50));
    let m = p.indicator(&Color::from_hsva_f32(0, UNIT / 4, UNIT / 4, UNIT));
    assert_eq!(m.shape.center, at(50, 150));
}

#[test]
fn slider_indicator_is_clamped_at_both_ends() {
    let mut p = HuePicker::new();
    p.resize(18 * PX, 198 * PX);
    let top = p.indicator(&Color::from_hsva_f32(0, UNIT, UNIT, UNIT));
    assert_eq!(top.shape, Rect { x0: 128, y0: 64, x1: 18 * PX - 128, y1: 256 });
    assert_eq!(top.shadow, Rect { x0: 128, y0: 96, x1: 18 * PX - 128, y1: 288 });
    let bottom = p.indicator(&Color::from_hsva_f32(UNIT, UNIT, UNIT, UNIT));
    assert_eq!(bottom.shape.y1, 198 * PX - 64);
    assert_eq!(bottom.shape.y0, 198 * PX - 64 - 192);
    let middle = p.indicator(&Color::from_hsva_f32(UNIT / 2, UNIT, UNIT, UNIT));
    assert_eq!((middle.shape.y0, middle.shape.y1), (99 * PX - 96, 99 * PX + 96));
    let mut a = AlphaPicker::new();
    a.resize(18 * PX, 198 * PX);
    let opaque = a.indicator(&Color::from_hsva_f32(0, UNIT, UNIT, UNIT));
    assert_eq!(opaque.shape, top.shape);
}

#[test]
fn rect_helpers() {
    let r = Rect { x0: 0, y0: 0, x1: 10, y1: 10 };
    assert_eq!(r.translate(5, -3), Rect { x0: 5, y0: -3, x1: 15, y1: 7 });
    assert_eq!(r.shrink(Size { width: 2, height: 1 }), Rect { x0: 2, y0: 1, x1: 8, y1: 9 });
    let bounds = Rect { x0: 0, y0: 0, x1: 100, y1: 25 };
    assert_eq!(
        Rect { x0: -5, y0: 20, x1: 5, y1: 30 }.clamp(bounds),
        Rect { x0: 0, y0: 15, x1: 10, y1: 25 }
    );
    assert_eq!(r.clamp(bounds), r);
}

#[test]
fn circle_helpers() {
    let c = Circle { center: Point { x: 1, y: 99 }, radius: 3 };
    assert_eq!(c.translate(2, -2), Circle { center: Point { x: 3, y: 97 }, radius: 3 });
    assert_eq!(c.shrink(1), Circle { center: Point { x: 1, y: 99 }, radius: 2 });
    let bounds = Rect { x0: 0, y0: 0, x1: 100, y1: 100 };
    assert_eq!(c.clamp(bounds), Circle { center: Point { x: 3, y: 97 }, radius: 3 });
}

#[test]
fn clamp_coord_prefers_the_upper_limit_when_limits_cross() {
    assert_eq!(clamp_coord(5, 0, 10), 5);
    assert_eq!(clamp_coord(-5, 0, 10), 0);
    assert_eq!(clamp_coord(15, 0, 10), 10);
    assert_eq!(clamp_coord(5, 8, 3), 3);
}

#[test]
fn accepts_tells_when_an_event_can_be_handled() {
    let mut p = SatValuePicker::new();
    let down = PointerEvent::Down(at(1, 1));
    let moved = PointerEvent::Move(at(1, 1));
    // No extent yet: nothing that sets the color, anything else.
    assert!(!p.accepts(down, &mid_hsv()));
    assert!(p.accepts(moved, &mid_hsv()));
    assert!(p.accepts(PointerEvent::Up, &mid_hsv()));
    p.resize(10 * PX, 0);
    assert!(!p.accepts(down, &mid_hsv()));
    p.resize(10 * PX, 10 * PX);
    assert!(p.accepts(down, &mid_hsv()));
    // The value plane does not control a color held in HSL.
    assert!(!p.accepts(down, &mid_hsl()));
    assert!(!p.accepts(PointerEvent::Up, &mid_hsl()));
    let mut l = SatLightPicker::new();
    l.resize(10 * PX, 10 * PX);
    assert!(l.accepts(down, &mid_hsl()));
    assert!(!l.accepts(down, &mid_hsv()));
    let mut h = HuePicker::new();
    assert!(!h.accepts(down, &mid_hsl()));
    h.resize(PX, PX);
    assert!(h.accepts(down, &mid_hsl()));
    assert!(h.accepts(down, &mid_hsv()));
    let mut a = AlphaPicker::new();
    a.resize(PX, PX);
    assert!(a.accepts(down, &mid_hsl()));
    let mut c = mid_hsv();
    a.event(down, &mut c);
    a.resize(0, 0);
    assert!(!a.accepts(moved, &c));
    assert!(a.accepts(PointerEvent::Up, &c));
}

#[test]
fn sliders_work_on_either_model() {
    let mut h = HuePicker::new();
    h.resize(18 * PX, 200 * PX);
    let mut c = Color::from_hsla_f32(0, UNIT, UNIT / 2, UNIT);
    h.event(PointerEvent::Down(at(0, 50)), &mut c);
    assert_eq!((c.hue(), c.saturation(), c.lightness()), (UNIT / 4, UNIT, UNIT / 2));
    assert_eq!(
        (c.red(), c.green(), c.blue()),
        picker::convert::hsl_to_rgb(UNIT / 4, UNIT, UNIT / 2)
    );
    let buf = h.render(&c);
    assert_eq!(buf.len(), 18 * 200 * 4);
    assert_eq!(&buf[0..4], &[255, 0, 0, 255]);
}
