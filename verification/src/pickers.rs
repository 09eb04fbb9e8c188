//! The picker surfaces: a plane for saturation against value or lightness,
//! a slider for hue and a slider for alpha. Each maps the pointer to the
//! components it controls, synthesizes its gradient, and places a marker at
//! the current color.

use vstd::prelude::*;
use crate::fixed::{UNIT, unit, in_unit, round_div, div_round, lemma_round_div_le};
use crate::color::{Color, ColorView, Model, polar_color};
use crate::shape::{Point, Size, Rect, Circle, ShapeHelpExt};
use crate::surface::{Surface, SurfaceView, PointerEvent, Reaction, Phase, PX, MAX_EXTENT,
    axis_fraction, map_axis, next_phase, mutation_point, reaction_to, react};
use crate::raster::{draw, pixel_bytes, drawn_by};

verus! {

/// The radius of the plane's marker before its stroke is taken off: four
/// and a half pixels.
pub const MARKER_RADIUS: i64 = 288;

/// The height of a slider's marker before its stroke is taken off: five
/// pixels.
pub const BAR_HEIGHT: i64 = 320;

/// The width of the line that markers are stroked with: two pixels.
pub const STROKE: i64 = 128;

/// The margin kept between a marker and the surface's edge: one pixel.
pub const INSET: i64 = 64;

/// How far below the plane's marker its shadow lies: one pixel.
pub const PLANE_SHADOW: i64 = 64;

/// How far below a slider's marker its shadow lies: half a pixel.
pub const BAR_SHADOW: i64 = 32;

/// The fraction `i / n` of a pixel index across `n` pixels.
pub open spec fn step_fraction(i: int, n: int) -> int {
    round_div(i * unit(), n)
}

/// The position, in sub-pixel units, at fraction `f` of `extent`.
pub open spec fn place(f: int, extent: int) -> int {
    round_div(f * extent, unit())
}

/// `1 - f` where `invert`, else `f`.
pub open spec fn flip(f: int, invert: bool) -> int {
    if invert {
        unit() - f
    } else {
        f
    }
}

/// The color after the plane is pressed at `p`: saturation from `x`, the
/// third component from `y`, downward for lightness and upward for value.
pub open spec fn plane_set(s: SurfaceView, p: Point, c: ColorView, invert: bool) -> ColorView {
    c.with_polar(
        c.hue,
        axis_fraction(p.x as int, s.width),
        flip(axis_fraction(p.y as int, s.height), invert),
    )
}

/// The color after the hue slider is pressed at `p`: top is zero.
pub open spec fn hue_set(s: SurfaceView, p: Point, c: ColorView) -> ColorView {
    c.with_polar(axis_fraction(p.y as int, s.height), c.saturation, c.level)
}

/// The color after the alpha slider is pressed at `p`: top is opaque.
pub open spec fn alpha_set(s: SurfaceView, p: Point, c: ColorView) -> ColorView {
    ColorView { alpha: unit() - axis_fraction(p.y as int, s.height), ..c }
}

/// The color shown at pixel `(x, y)` of the plane: the current hue, fully
/// opaque.
pub open spec fn plane_pixel(s: SurfaceView, c: ColorView, x: int, y: int, invert: bool) -> ColorView {
    polar_color(
        c.model,
        c.hue,
        step_fraction(x, s.columns()),
        flip(step_fraction(y, s.rows()), invert),
        unit(),
    )
}

/// The color shown in row `y` of the hue slider: the current saturation and
/// third component, fully opaque.
pub open spec fn hue_pixel(s: SurfaceView, c: ColorView, y: int) -> ColorView {
    polar_color(c.model, step_fraction(y, s.rows()), c.saturation, c.level, unit())
}

/// The color shown in row `y` of the alpha slider: the current polar triple.
pub open spec fn alpha_pixel(s: SurfaceView, c: ColorView, y: int) -> ColorView {
    polar_color(c.model, c.hue, c.saturation, c.level, unit() - step_fraction(y, s.rows()))
}

/// The rectangle of whole pixels that a surface paints.
pub open spec fn painted(s: SurfaceView) -> Rect {
    Rect { x0: 0, y0: 0, x1: (s.columns() * PX) as i64, y1: (s.rows() * PX) as i64 }
}

/// The plane's marker and its shadow.
#[derive(Clone, Copy, Debug, PartialEq, Eq, Structural)]
pub struct CircleMarker {
    /// The circle to stroke in white.
    pub shape: Circle,
    /// The same circle a little lower, to stroke first and faintly.
    pub shadow: Circle,
}

/// A slider's marker and its shadow.
#[derive(Clone, Copy, Debug, PartialEq, Eq, Structural)]
pub struct BarMarker {
    /// The bar to stroke in white.
    pub shape: Rect,
    /// The same bar a little lower, to stroke first and faintly.
    pub shadow: Rect,
}

/// The plane's marker: a circle at the current saturation and third
/// component, its stroke taken off its radius, clamped into the painted
/// rectangle less the inset and half the stroke.
pub open spec fn plane_marker(s: SurfaceView, c: ColorView, invert: bool) -> CircleMarker {
    let r = painted(s);
    let center = Point {
        x: place(c.saturation, r.x1 as int) as i64,
        y: place(flip(c.level, invert), r.y1 as int) as i64,
    };
    let half: i64 = (STROKE / 2) as i64;
    let shape = (Circle { center, radius: MARKER_RADIUS }).shrunk(half).clamped(
        r.shrunk(Size { width: INSET, height: INSET }).shrunk(Size { width: half, height: half }),
    );
    CircleMarker { shape, shadow: shape.translated(0, PLANE_SHADOW) }
}

/// A slider's marker: a bar across the slider, centred on the row at
/// fraction `f`, inset at the sides, its stroke taken off all round, clamped
/// into the painted rectangle less half the stroke.
pub open spec fn bar_marker(s: SurfaceView, f: int) -> BarMarker {
    let r = painted(s);
    let y = place(f, r.y1 as int);
    let half: i64 = (STROKE / 2) as i64;
    let shape = (Rect { x0: 0, y0: y as i64, x1: r.x1, y1: (y + BAR_HEIGHT) as i64 }).translated(
        0,
        (-BAR_HEIGHT / 2) as i64,
    ).shrunk(Size { width: INSET, height: 0 }).shrunk(Size { width: half, height: half }).clamped(
        r.shrunk(Size { width: half, height: half }),
    );
    BarMarker { shape, shadow: shape.translated(0, BAR_SHADOW) }
}

/// A position at a valid fraction of an extent lies within the extent.
pub proof fn lemma_place_bounds(f: int, extent: int)
    requires
        in_unit(f),
        0 <= extent,
    ensures
        0 <= place(f, extent) <= extent,
{
    assert(0 <= f * extent <= extent * unit()) by (nonlinear_arith)
        requires
            0 <= f <= unit(),
            0 <= extent,
    ;
    lemma_round_div_le(f * extent, unit(), extent);
}

/// The fraction of a pixel index is a valid fraction.
pub proof fn lemma_step_fraction_bounds(i: int, n: int)
    requires
        0 <= i < n,
    ensures
        0 <= step_fraction(i, n) <= unit(),
{
    assert(0 <= i * unit() <= unit() * n) by (nonlinear_arith)
        requires
            0 <= i < n,
    ;
    lemma_round_div_le(i * unit(), n, unit());
}

/// Wherever the painted rectangle is at least eleven pixels each way, the
/// plane's marker with its stroke, and its shadow with its stroke, lie
/// within the painted rectangle, whatever the color.
pub proof fn lemma_plane_marker_inside(s: SurfaceView, c: ColorView, invert: bool)
    requires
        0 <= s.width <= MAX_EXTENT,
        0 <= s.height <= MAX_EXTENT,
        c.in_range(),
        s.columns() >= 11,
        s.rows() >= 11,
    ensures
        ({
            let m = plane_marker(s, c, invert);
            let r = painted(s);
            let reach = m.shape.radius + STROKE / 2;
            &&& 0 <= m.shape.center.x - reach
            &&& m.shape.center.x + reach <= r.x1
            &&& 0 <= m.shape.center.y - reach
            &&& m.shape.center.y + reach <= r.y1
            &&& 0 <= m.shadow.center.x - reach
            &&& m.shadow.center.x + reach <= r.x1
            &&& 0 <= m.shadow.center.y - reach
            &&& m.shadow.center.y + reach <= r.y1
        }),
{
    let r = painted(s);
    lemma_place_bounds(c.saturation, r.x1 as int);
    lemma_place_bounds(flip(c.level, invert), r.y1 as int);
}

/// Wherever the painted rectangle is at least five pixels each way, a
/// slider's marker with its stroke lies within the painted rectangle,
/// whatever the fraction it marks.
pub proof fn lemma_bar_marker_inside(s: SurfaceView, f: int)
    requires
        0 <= s.width <= MAX_EXTENT,
        0 <= s.height <= MAX_EXTENT,
        in_unit(f),
        s.columns() >= 5,
        s.rows() >= 5,
    ensures
        ({
            let m = bar_marker(s, f);
            let r = painted(s);
            &&& 0 <= m.shape.x0 - STROKE / 2
            &&& m.shape.x1 + STROKE / 2 <= r.x1
            &&& 0 <= m.shape.y0 - STROKE / 2
            &&& m.shape.y1 + STROKE / 2 <= r.y1
            &&& m.shape.x0 <= m.shape.x1
            &&& m.shape.y0 <= m.shape.y1
        }),
{
    let r = painted(s);
    lemma_place_bounds(f, r.y1 as int);
}

/// The fraction of a pixel index across a row or column.
fn pixel_fraction(i: usize, n: usize) -> (f: u32)
    requires
        i < n <= MAX_EXTENT / PX,
    ensures
        f == step_fraction(i as int, n as int),
        f <= UNIT,
{
    proof {
        lemma_step_fraction_bounds(i as int, n as int);
    }
    assert(i as u64 * (UNIT as u64) <= 67_108_864 * 306_000) by (nonlinear_arith)
        requires
            i <= 67_108_864,
            UNIT == 306_000,
    ;
    div_round(i as u64 * (UNIT as u64), n as u64) as u32
}

/// The position at a fraction of an extent.
fn place_at(f: u32, extent: i64) -> (pos: i64)
    requires
        f <= UNIT,
        0 <= extent <= MAX_EXTENT,
    ensures
        pos == place(f as int, extent as int),
        0 <= pos <= extent,
{
    proof {
        lemma_place_bounds(f as int, extent as int);
    }
    assert(f as u64 * (extent as u64) <= 306_000 * 4_294_967_296) by (nonlinear_arith)
        requires
            f <= 306_000,
            0 <= extent <= 4_294_967_296,
    ;
    div_round(f as u64 * (extent as u64), UNIT as u64) as i64
}

/// `1 - f` where `invert`, else `f`.
fn flipped(f: u32, invert: bool) -> (g: u32)
    requires
        f <= UNIT,
    ensures
        g == flip(f as int, invert),
        g <= UNIT,
{
    if invert {
        UNIT - f
    } else {
        f
    }
}

/// The rectangle of whole pixels that a surface paints.
fn painted_rect(surface: &Surface) -> (r: Rect)
    ensures
        r == painted(surface@),
        r.x0 == 0 && r.y0 == 0,
        0 <= r.x1 <= MAX_EXTENT,
        0 <= r.y1 <= MAX_EXTENT,
{
    let cols: usize = surface.columns();
    let rows: usize = surface.rows();
    Rect { x0: 0, y0: 0, x1: cols as i64 * PX, y1: rows as i64 * PX }
}

/// Whether the color is held in `model`.
fn held_in(c: &Color, model: Model) -> (yes: bool)
    ensures
        yes == (c@.model == model),
{
    match (c.model(), model) {
        (Model::Hsv, Model::Hsv) => true,
        (Model::Hsl, Model::Hsl) => true,
        _ => false,
    }
}

/// Whether the surface has the extent that the event needs: any, unless the
/// event is to set the color.
fn can_map(surface: &Surface, event: PointerEvent) -> (ok: bool)
    ensures
        ok == (mutation_point(surface@.phase, event) is Some ==> surface@.ready()),
{
    let size: Size = surface.extent();
    !react(surface.phase(), event).mutated || (size.width > 0 && size.height > 0)
}

/// Sets saturation and the third component from a position on the plane.
fn set_on_plane(surface: &Surface, p: Point, c: &mut Color, invert: bool)
    requires
        surface@.ready(),
    ensures
        final(c)@ == plane_set(surface@, p, old(c)@, invert),
        final(c)@.in_range(),
        final(c)@.coherent(),
{
    let size: Size = surface.extent();
    c.set_saturation(map_axis(p.x, size.width));
    c.set_level(flipped(map_axis(p.y, size.height), invert));
}

/// Synthesizes the plane's gradient.
fn render_plane(surface: &Surface, c: &Color, invert: bool) -> (buf: Vec<u8>)
    ensures
        buf@.len() == surface@.columns() * surface@.rows() * 4,
        forall|x: int, y: int|
            0 <= x < surface@.columns() && 0 <= y < surface@.rows() ==> #[trigger] pixel_bytes(
                buf@,
                surface@.columns(),
                x,
                y,
            ) == plane_pixel(surface@, c@, x, y, invert).pixel(),
{
    let cols: usize = surface.columns();
    let rows: usize = surface.rows();
    let model: Model = c.model();
    let hue: u32 = c.hue();
    let ghost sv = surface@;
    let ghost cv = c@;
    let get_px = |x: usize, y: usize| -> (px: [u8; 4])
        requires
            x < cols,
            y < rows,
        ensures
            px@ == plane_pixel(surface@, c@, x as int, y as int, invert).pixel(),
        {
            let sat: u32 = pixel_fraction(x, cols);
            let level: u32 = flipped(pixel_fraction(y, rows), invert);
            Color::from_polar(model, hue, sat, level, UNIT).pixel()
        };
    let buf: Vec<u8> = draw(cols, rows, get_px);
    assert forall|x: int, y: int|
        0 <= x < sv.columns() && 0 <= y < sv.rows() implies #[trigger] pixel_bytes(
        buf@,
        sv.columns(),
        x,
        y,
    ) == plane_pixel(sv, cv, x, y, invert).pixel() by {
        assert(drawn_by(
            get_px,
            x as usize,
            y as usize,
            pixel_bytes(buf@, cols as int, x as usize as int, y as usize as int),
        ));
    }
    buf
}

/// Places the plane's marker.
fn mark_plane(surface: &Surface, c: &Color, invert: bool) -> (m: CircleMarker)
    ensures
        m == plane_marker(surface@, c@, invert),
{
    let r: Rect = painted_rect(surface);
    let center: Point = Point {
        x: place_at(c.saturation(), r.x1),
        y: place_at(flipped(c.level(), invert), r.y1),
    };
    let half: i64 = STROKE / 2;
    let bounds: Rect = r.shrink(Size { width: INSET, height: INSET }).shrink(
        Size { width: half, height: half },
    );
    let shape: Circle = (Circle { center, radius: MARKER_RADIUS }).shrink(half).clamp(bounds);
    CircleMarker { shape, shadow: shape.translate(0, PLANE_SHADOW) }
}

/// Places a slider's marker at fraction `f`.
fn mark_bar(surface: &Surface, f: u32) -> (m: BarMarker)
    requires
        f <= UNIT,
    ensures
        m == bar_marker(surface@, f as int),
{
    let r: Rect = painted_rect(surface);
    let y: i64 = place_at(f, r.y1);
    let half: i64 = STROKE / 2;
    let bounds: Rect = r.shrink(Size { width: half, height: half });
    let shape: Rect = (Rect { x0: 0, y0: y, x1: r.x1, y1: y + BAR_HEIGHT }).translate(
        0,
        -BAR_HEIGHT / 2,
    ).shrink(Size { width: INSET, height: 0 }).shrink(Size { width: half, height: half }).clamp(
        bounds,
    );
    BarMarker { shape, shadow: shape.translate(0, BAR_SHADOW) }
}

/// Synthesizes the hue slider's gradient.
fn render_hue(surface: &Surface, c: &Color) -> (buf: Vec<u8>)
    ensures
        buf@.len() == surface@.columns() * surface@.rows() * 4,
        forall|x: int, y: int|
            0 <= x < surface@.columns() && 0 <= y < surface@.rows() ==> #[trigger] pixel_bytes(
                buf@,
                surface@.columns(),
                x,
                y,
            ) == hue_pixel(surface@, c@, y).pixel(),
{
    let cols: usize = surface.columns();
    let rows: usize = surface.rows();
    let model: Model = c.model();
    let sat: u32 = c.saturation();
    let level: u32 = c.level();
    let get_px = |x: usize, y: usize| -> (px: [u8; 4])
        requires
            x < cols,
            y < rows,
        ensures
            px@ == hue_pixel(surface@, c@, y as int).pixel(),
        {
            Color::from_polar(model, pixel_fraction(y, rows), sat, level, UNIT).pixel()
        };
    let buf: Vec<u8> = draw(cols, rows, get_px);
    assert forall|x: int, y: int|
        0 <= x < surface@.columns() && 0 <= y < surface@.rows() implies #[trigger] pixel_bytes(
        buf@,
        surface@.columns(),
        x,
        y,
    ) == hue_pixel(surface@, c@, y).pixel() by {
        assert(drawn_by(
            get_px,
            x as usize,
            y as usize,
            pixel_bytes(buf@, cols as int, x as usize as int, y as usize as int),
        ));
    }
    buf
}

/// Synthesizes the alpha slider's gradient.
fn render_alpha(surface: &Surface, c: &Color) -> (buf: Vec<u8>)
    ensures
        buf@.len() == surface@.columns() * surface@.rows() * 4,
        forall|x: int, y: int|
            0 <= x < surface@.columns() && 0 <= y < surface@.rows() ==> #[trigger] pixel_bytes(
                buf@,
                surface@.columns(),
                x,
                y,
            ) == alpha_pixel(surface@, c@, y).pixel(),
{
    let cols: usize = surface.columns();
    let rows: usize = surface.rows();
    let model: Model = c.model();
    let hue: u32 = c.hue();
    let sat: u32 = c.saturation();
    let level: u32 = c.level();
    let get_px = |x: usize, y: usize| -> (px: [u8; 4])
        requires
            x < cols,
            y < rows,
        ensures
            px@ == alpha_pixel(surface@, c@, y as int).pixel(),
        {
            Color::from_polar(model, hue, sat, level, UNIT - pixel_fraction(y, rows)).pixel()
        };
    let buf: Vec<u8> = draw(cols, rows, get_px);
    assert forall|x: int, y: int|
        0 <= x < surface@.columns() && 0 <= y < surface@.rows() implies #[trigger] pixel_bytes(
        buf@,
        surface@.columns(),
        x,
        y,
    ) == alpha_pixel(surface@, c@, y).pixel() by {
        assert(drawn_by(
            get_px,
            x as usize,
            y as usize,
            pixel_bytes(buf@, cols as int, x as usize as int, y as usize as int),
        ));
    }
    buf
}

/// What every picker surface offers: it records its extent, maps pointer
/// events to mutations of the color it controls, synthesizes its gradient
/// and places its marker.
pub trait PickerSurface: Sized {
    /// The shape of the surface's marker, with its shadow.
    type Marker;

    /// The extent and phase of the surface.
    spec fn state(&self) -> SurfaceView;

    /// Whether the surface controls a color like `c`: a plane controls the
    /// colors of its own model only.
    spec fn controls(c: ColorView) -> bool;

    /// The color after the surface is pressed at `p`.
    spec fn pressed(s: SurfaceView, p: Point, c: ColorView) -> ColorView;

    /// The color shown at pixel `(x, y)` of the gradient.
    spec fn shown(s: SurfaceView, c: ColorView, x: int, y: int) -> ColorView;

    /// The marker for the color.
    spec fn marker(s: SurfaceView, c: ColorView) -> Self::Marker;

    /// Records the extent of the surface, in sub-pixel units; the phase
    /// stays.
    fn resize(&mut self, width: i64, height: i64)
        requires
            0 <= width <= MAX_EXTENT,
            0 <= height <= MAX_EXTENT,
        ensures
            final(self).state() == (SurfaceView {
                width: width as int,
                height: height as int,
                ..old(self).state()
            }),
    ;

    /// The recorded extent.
    fn extent(&self) -> (size: Size)
        ensures
            size.width == self.state().width,
            size.height == self.state().height,
            0 <= size.width <= MAX_EXTENT,
            0 <= size.height <= MAX_EXTENT,
    ;

    /// Whether a drag is in progress.
    fn phase(&self) -> (p: Phase)
        ensures
            p == self.state().phase,
    ;

    /// Sets the components that the surface controls from a position, which
    /// is clamped to the extent first.
    fn set(&self, p: Point, c: &mut Color)
        requires
            self.state().ready(),
            Self::controls(old(c)@),
        ensures
            final(c)@ == Self::pressed(self.state(), p, old(c)@),
            final(c)@.in_range(),
            final(c)@.coherent(),
    ;

    /// Whether the surface can handle `event` for the color `c`: it
    /// controls the color, and it has an extent if the event is to set the
    /// color.
    fn accepts(&self, event: PointerEvent, c: &Color) -> (ok: bool)
        ensures
            ok == (Self::controls(c@) && (mutation_point(self.state().phase, event) is Some
                ==> self.state().ready())),
    ;

    /// Handles one pointer event: a press starts a drag and sets the color
    /// from its position, a move during a drag sets it again, a release
    /// ends the drag. Nothing else touches the color.
    fn event(&mut self, event: PointerEvent, c: &mut Color) -> (r: Reaction)
        requires
            mutation_point(old(self).state().phase, event) is Some ==> old(self).state().ready(),
            Self::controls(old(c)@),
        ensures
            final(self).state() == (SurfaceView {
                phase: next_phase(old(self).state().phase, event),
                ..old(self).state()
            }),
            r == reaction_to(old(self).state().phase, event),
            final(c)@ == match mutation_point(old(self).state().phase, event) {
                Some(p) => Self::pressed(old(self).state(), p, old(c)@),
                None => old(c)@,
            },
    ;

    /// Synthesizes the gradient for the current color: one RGBA pixel for
    /// each whole pixel of the extent, row by row from the top.
    fn render(&self, c: &Color) -> (buf: Vec<u8>)
        ensures
            buf@.len() == self.state().columns() * self.state().rows() * 4,
            forall|x: int, y: int|
                0 <= x < self.state().columns() && 0 <= y < self.state().rows()
                    ==> #[trigger] pixel_bytes(buf@, self.state().columns(), x, y) == Self::shown(
                    self.state(),
                    c@,
                    x,
                    y,
                ).pixel(),
    ;

    /// Places the marker for the current color.
    fn indicator(&self, c: &Color) -> (m: Self::Marker)
        ensures
            m == Self::marker(self.state(), c@),
    ;
}

/// The plane that sets saturation across, zero at the left, and value upward,
/// one at the top.
#[derive(Clone, Copy, Debug)]
pub struct SatValuePicker {
    surface: Surface,
}

impl View for SatValuePicker {
    type V = SurfaceView;

    closed spec fn view(&self) -> SurfaceView {
        self.surface@
    }
}

impl SatValuePicker {
    /// A picker of no extent, idle.
    pub fn new() -> (picker: Self)
        ensures
            picker@ == (SurfaceView { width: 0, height: 0, phase: Phase::Idle }),
    {
        SatValuePicker { surface: Surface::new() }
    }
}

impl PickerSurface for SatValuePicker {
    type Marker = CircleMarker;

    open spec fn state(&self) -> SurfaceView {
        self@
    }

    open spec fn controls(c: ColorView) -> bool {
        c.model == Model::Hsv
    }

    open spec fn pressed(s: SurfaceView, p: Point, c: ColorView) -> ColorView {
        plane_set(s, p, c, true)
    }

    open spec fn shown(s: SurfaceView, c: ColorView, x: int, y: int) -> ColorView {
        plane_pixel(s, c, x, y, true)
    }

    open spec fn marker(s: SurfaceView, c: ColorView) -> CircleMarker {
        plane_marker(s, c, true)
    }

    fn resize(&mut self, width: i64, height: i64) {
        self.surface.resize(width, height);
    }

    fn extent(&self) -> (size: Size) {
        self.surface.extent()
    }

    fn phase(&self) -> (p: Phase) {
        self.surface.phase()
    }

    fn set(&self, p: Point, c: &mut Color) {
        set_on_plane(&self.surface, p, c, true);
    }

    fn accepts(&self, event: PointerEvent, c: &Color) -> (ok: bool) {
        held_in(c, Model::Hsv) && can_map(&self.surface, event)
    }

    fn event(&mut self, event: PointerEvent, c: &mut Color) -> (r: Reaction) {
        let before: Phase = self.surface.phase();
        let at: Option<Point> = self.surface.advance(event);
        match at {
            Some(p) => {
                self.set(p, c);
            },
            None => {},
        }
        react(before, event)
    }

    fn render(&self, c: &Color) -> (buf: Vec<u8>) {
        render_plane(&self.surface, c, true)
    }

    fn indicator(&self, c: &Color) -> (m: CircleMarker) {
        mark_plane(&self.surface, c, true)
    }
}

/// The plane that sets saturation across, zero at the left, and lightness
/// downward, zero at the top.
#[derive(Clone, Copy, Debug)]
pub struct SatLightPicker {
    surface: Surface,
}

impl View for SatLightPicker {
    type V = SurfaceView;

    closed spec fn view(&self) -> SurfaceView {
        self.surface@
    }
}

impl SatLightPicker {
    /// A picker of no extent, idle.
    pub fn new() -> (picker: Self)
        ensures
            picker@ == (SurfaceView { width: 0, height: 0, phase: Phase::Idle }),
    {
        SatLightPicker { surface: Surface::new() }
    }
}

impl PickerSurface for SatLightPicker {
    type Marker = CircleMarker;

    open spec fn state(&self) -> SurfaceView {
        self@
    }

    open spec fn controls(c: ColorView) -> bool {
        c.model == Model::Hsl
    }

    open spec fn pressed(s: SurfaceView, p: Point, c: ColorView) -> ColorView {
        plane_set(s, p, c, false)
    }

    open spec fn shown(s: SurfaceView, c: ColorView, x: int, y: int) -> ColorView {
        plane_pixel(s, c, x, y, false)
    }

    open spec fn marker(s: SurfaceView, c: ColorView) -> CircleMarker {
        plane_marker(s, c, false)
    }

    fn resize(&mut self, width: i64, height: i64) {
        self.surface.resize(width, height);
    }

    fn extent(&self) -> (size: Size) {
        self.surface.extent()
    }

    fn phase(&self) -> (p: Phase) {
        self.surface.phase()
    }

    fn set(&self, p: Point, c: &mut Color) {
        set_on_plane(&self.surface, p, c, false);
    }

    fn accepts(&self, event: PointerEvent, c: &Color) -> (ok: bool) {
        held_in(c, Model::Hsl) && can_map(&self.surface, event)
    }

    fn event(&mut self, event: PointerEvent, c: &mut Color) -> (r: Reaction) {
        let before: Phase = self.surface.phase();
        let at: Option<Point> = self.surface.advance(event);
        match at {
            Some(p) => {
                self.set(p, c);
            },
            None => {},
        }
        react(before, event)
    }

    fn render(&self, c: &Color) -> (buf: Vec<u8>) {
        render_plane(&self.surface, c, false)
    }

    fn indicator(&self, c: &Color) -> (m: CircleMarker) {
        mark_plane(&self.surface, c, false)
    }
}

/// The slider that sets hue, zero at the top.
#[derive(Clone, Copy, Debug)]
pub struct HuePicker {
    surface: Surface,
}

impl View for HuePicker {
    type V = SurfaceView;

    closed spec fn view(&self) -> SurfaceView {
        self.surface@
    }
}

impl HuePicker {
    /// A picker of no extent, idle.
    pub fn new() -> (picker: Self)
        ensures
            picker@ == (SurfaceView { width: 0, height: 0, phase: Phase::Idle }),
    {
        HuePicker { surface: Surface::new() }
    }
}

impl PickerSurface for HuePicker {
    type Marker = BarMarker;

    open spec fn state(&self) -> SurfaceView {
        self@
    }

    open spec fn controls(c: ColorView) -> bool {
        true
    }

    open spec fn pressed(s: SurfaceView, p: Point, c: ColorView) -> ColorView {
        hue_set(s, p, c)
    }

    open spec fn shown(s: SurfaceView, c: ColorView, x: int, y: int) -> ColorView {
        hue_pixel(s, c, y)
    }

    open spec fn marker(s: SurfaceView, c: ColorView) -> BarMarker {
        bar_marker(s, c.hue)
    }

    fn resize(&mut self, width: i64, height: i64) {
        self.surface.resize(width, height);
    }

    fn extent(&self) -> (size: Size) {
        self.surface.extent()
    }

    fn phase(&self) -> (p: Phase) {
        self.surface.phase()
    }

    fn set(&self, p: Point, c: &mut Color) {
        let size: Size = self.surface.extent();
        c.set_hue(map_axis(p.y, size.height));
    }

    fn accepts(&self, event: PointerEvent, c: &Color) -> (ok: bool) {
        true && can_map(&self.surface, event)
    }

    fn event(&mut self, event: PointerEvent, c: &mut Color) -> (r: Reaction) {
        let before: Phase = self.surface.phase();
        let at: Option<Point> = self.surface.advance(event);
        match at {
            Some(p) => {
                self.set(p, c);
            },
            None => {},
        }
        react(before, event)
    }

    fn render(&self, c: &Color) -> (buf: Vec<u8>) {
        render_hue(&self.surface, c)
    }

    fn indicator(&self, c: &Color) -> (m: BarMarker) {
        mark_bar(&self.surface, c.hue())
    }
}

/// The slider that sets alpha, opaque at the top.
#[derive(Clone, Copy, Debug)]
pub struct AlphaPicker {
    surface: Surface,
}

impl View for AlphaPicker {
    type V = SurfaceView;

    closed spec fn view(&self) -> SurfaceView {
        self.surface@
    }
}

impl AlphaPicker {
    /// A picker of no extent, idle.
    pub fn new() -> (picker: Self)
        ensures
            picker@ == (SurfaceView { width: 0, height: 0, phase: Phase::Idle }),
    {
        AlphaPicker { surface: Surface::new() }
    }
}

impl PickerSurface for AlphaPicker {
    type Marker = BarMarker;

    open spec fn state(&self) -> SurfaceView {
        self@
    }

    open spec fn controls(c: ColorView) -> bool {
        true
    }

    open spec fn pressed(s: SurfaceView, p: Point, c: ColorView) -> ColorView {
        alpha_set(s, p, c)
    }

    open spec fn shown(s: SurfaceView, c: ColorView, x: int, y: int) -> ColorView {
        alpha_pixel(s, c, y)
    }

    open spec fn marker(s: SurfaceView, c: ColorView) -> BarMarker {
        bar_marker(s, unit() - c.alpha)
    }

    fn resize(&mut self, width: i64, height: i64) {
        self.surface.resize(width, height);
    }

    fn extent(&self) -> (size: Size) {
        self.surface.extent()
    }

    fn phase(&self) -> (p: Phase) {
        self.surface.phase()
    }

    fn set(&self, p: Point, c: &mut Color) {
        let size: Size = self.surface.extent();
        c.set_alpha(UNIT - map_axis(p.y, size.height));
    }

    fn accepts(&self, event: PointerEvent, c: &Color) -> (ok: bool) {
        true && can_map(&self.surface, event)
    }

    fn event(&mut self, event: PointerEvent, c: &mut Color) -> (r: Reaction) {
        let before: Phase = self.surface.phase();
        let at: Option<Point> = self.surface.advance(event);
        match at {
            Some(p) => {
                self.set(p, c);
            },
            None => {},
        }
        react(before, event)
    }

    fn render(&self, c: &Color) -> (buf: Vec<u8>) {
        render_alpha(&self.surface, c)
    }

    fn indicator(&self, c: &Color) -> (m: BarMarker) {
        mark_bar(&self.surface, UNIT - c.alpha())
    }
}

} // verus!
