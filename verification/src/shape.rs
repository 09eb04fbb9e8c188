//! Geometry helpers for placing a marker: translate, shrink and clamp, on
//! rectangles and circles alike. Coordinates are integers in whatever unit
//! the caller measures in.

use vstd::prelude::*;

verus! {

/// Whether a mathematical coordinate can be held.
pub open spec fn fits(v: int) -> bool {
    i64::MIN <= v <= i64::MAX
}

/// The larger of two integers.
pub open spec fn max2(a: int, b: int) -> int {
    if a >= b {
        a
    } else {
        b
    }
}

/// The smaller of two integers.
pub open spec fn min2(a: int, b: int) -> int {
    if a <= b {
        a
    } else {
        b
    }
}

/// `v` raised to at least `lo`, then lowered to at most `hi`. Where the two
/// limits cross, the upper one wins.
pub open spec fn clamp_into(v: int, lo: int, hi: int) -> int {
    min2(max2(v, lo), hi)
}

/// A point of the plane.
#[derive(Clone, Copy, Debug, PartialEq, Eq, Structural)]
pub struct Point {
    pub x: i64,
    pub y: i64,
}

/// A horizontal and a vertical extent.
#[derive(Clone, Copy, Debug, PartialEq, Eq, Structural)]
pub struct Size {
    pub width: i64,
    pub height: i64,
}

/// An axis-aligned rectangle from its corner `(x0, y0)` to `(x1, y1)`.
#[derive(Clone, Copy, Debug, PartialEq, Eq, Structural)]
pub struct Rect {
    pub x0: i64,
    pub y0: i64,
    pub x1: i64,
    pub y1: i64,
}

/// A circle.
#[derive(Clone, Copy, Debug, PartialEq, Eq, Structural)]
pub struct Circle {
    pub center: Point,
    pub radius: i64,
}

/// Raises `v` to at least `lo`, then lowers it to at most `hi`.
pub fn clamp_coord(v: i64, lo: i64, hi: i64) -> (r: i64)
    ensures
        r == clamp_into(v as int, lo as int, hi as int),
{
    let raised: i64 = if v >= lo {
        v
    } else {
        lo
    };
    if raised <= hi {
        raised
    } else {
        hi
    }
}

/// The three operations that place a marker, for any shape. Each states the
/// shape that it returns; none changes the shape it is called on.
pub trait ShapeHelpExt: Sized {
    /// What a shape is shrunk by: a margin per axis, or one for all.
    type K;

    /// Whether the shape moved by `(x, y)` can be held.
    spec fn can_translate(&self, x: i64, y: i64) -> bool;

    /// The shape moved by `(x, y)`.
    spec fn translated(&self, x: i64, y: i64) -> Self;

    /// Whether the shape shrunk by `k` can be held.
    spec fn can_shrink(&self, k: Self::K) -> bool;

    /// The shape with each side moved inward by `k`.
    spec fn shrunk(&self, k: Self::K) -> Self;

    /// Whether the shape clamped into `bounds` can be computed and held.
    spec fn can_clamp(&self, bounds: Rect) -> bool;

    /// The shape of the same size, moved as little as possible to lie in
    /// `bounds`.
    spec fn clamped(&self, bounds: Rect) -> Self;

    /// Moves the shape by `(x, y)`.
    fn translate(&self, x: i64, y: i64) -> (r: Self)
        requires
            self.can_translate(x, y),
        ensures
            r == self.translated(x, y),
    ;

    /// Moves each side of the shape inward by `k`.
    fn shrink(&self, k: Self::K) -> (r: Self)
        requires
            self.can_shrink(k),
        ensures
            r == self.shrunk(k),
    ;

    /// Moves the shape into `bounds` without changing its size.
    fn clamp(&self, bounds: Rect) -> (r: Self)
        requires
            self.can_clamp(bounds),
        ensures
            r == self.clamped(bounds),
    ;
}

impl Rect {
    /// The horizontal extent.
    pub open spec fn spec_width(&self) -> int {
        self.x1 - self.x0
    }

    /// The vertical extent.
    pub open spec fn spec_height(&self) -> int {
        self.y1 - self.y0
    }

    /// Whether `inner` lies within this rectangle.
    pub open spec fn contains_rect(&self, inner: Rect) -> bool {
        &&& self.x0 <= inner.x0
        &&& inner.x1 <= self.x1
        &&& self.y0 <= inner.y0
        &&& inner.y1 <= self.y1
    }
}

impl ShapeHelpExt for Rect {
    type K = Size;

    open spec fn can_translate(&self, x: i64, y: i64) -> bool {
        &&& fits(self.x0 + x)
        &&& fits(self.y0 + y)
        &&& fits(self.x1 + x)
        &&& fits(self.y1 + y)
    }

    open spec fn translated(&self, x: i64, y: i64) -> Rect {
        Rect {
            x0: (self.x0 + x) as i64,
            y0: (self.y0 + y) as i64,
            x1: (self.x1 + x) as i64,
            y1: (self.y1 + y) as i64,
        }
    }

    open spec fn can_shrink(&self, k: Size) -> bool {
        &&& fits(self.x0 + k.width)
        &&& fits(self.y0 + k.height)
        &&& fits(self.x1 - k.width)
        &&& fits(self.y1 - k.height)
    }

    open spec fn shrunk(&self, k: Size) -> Rect {
        Rect {
            x0: (self.x0 + k.width) as i64,
            y0: (self.y0 + k.height) as i64,
            x1: (self.x1 - k.width) as i64,
            y1: (self.y1 - k.height) as i64,
        }
    }

    open spec fn can_clamp(&self, bounds: Rect) -> bool {
        &&& fits(self.spec_width())
        &&& fits(self.spec_height())
        &&& fits(bounds.x1 - self.spec_width())
        &&& fits(bounds.y1 - self.spec_height())
        &&& fits(bounds.x0 + self.spec_width())
        &&& fits(bounds.y0 + self.spec_height())
    }

    open spec fn clamped(&self, bounds: Rect) -> Rect {
        let w = self.spec_width();
        let h = self.spec_height();
        Rect {
            x0: clamp_into(self.x0 as int, bounds.x0 as int, bounds.x1 - w) as i64,
            y0: clamp_into(self.y0 as int, bounds.y0 as int, bounds.y1 - h) as i64,
            x1: clamp_into(self.x1 as int, bounds.x0 + w, bounds.x1 as int) as i64,
            y1: clamp_into(self.y1 as int, bounds.y0 + h, bounds.y1 as int) as i64,
        }
    }

    fn translate(&self, x: i64, y: i64) -> (r: Rect) {
        Rect { x0: self.x0 + x, y0: self.y0 + y, x1: self.x1 + x, y1: self.y1 + y }
    }

    fn shrink(&self, k: Size) -> (r: Rect) {
        Rect {
            x0: self.x0 + k.width,
            y0: self.y0 + k.height,
            x1: self.x1 - k.width,
            y1: self.y1 - k.height,
        }
    }

    fn clamp(&self, bounds: Rect) -> (r: Rect) {
        let w: i64 = self.x1 - self.x0;
        let h: i64 = self.y1 - self.y0;
        Rect {
            x0: clamp_coord(self.x0, bounds.x0, bounds.x1 - w),
            y0: clamp_coord(self.y0, bounds.y0, bounds.y1 - h),
            x1: clamp_coord(self.x1, bounds.x0 + w, bounds.x1),
            y1: clamp_coord(self.y1, bounds.y0 + h, bounds.y1),
        }
    }
}

impl Circle {
    /// The square that the circle is inscribed in.
    pub open spec fn bounding_box(&self) -> (int, int, int, int) {
        (
            self.center.x - self.radius,
            self.center.y - self.radius,
            self.center.x + self.radius,
            self.center.y + self.radius,
        )
    }
}

impl ShapeHelpExt for Circle {
    type K = i64;

    open spec fn can_translate(&self, x: i64, y: i64) -> bool {
        &&& fits(self.center.x + x)
        &&& fits(self.center.y + y)
    }

    open spec fn translated(&self, x: i64, y: i64) -> Circle {
        Circle {
            center: Point { x: (self.center.x + x) as i64, y: (self.center.y + y) as i64 },
            radius: self.radius,
        }
    }

    open spec fn can_shrink(&self, k: i64) -> bool {
        fits(self.radius - k)
    }

    open spec fn shrunk(&self, k: i64) -> Circle {
        Circle { center: self.center, radius: (self.radius - k) as i64 }
    }

    open spec fn can_clamp(&self, bounds: Rect) -> bool {
        &&& fits(bounds.x0 + self.radius)
        &&& fits(bounds.y0 + self.radius)
        &&& fits(bounds.x1 - self.radius)
        &&& fits(bounds.y1 - self.radius)
    }

    open spec fn clamped(&self, bounds: Rect) -> Circle {
        Circle {
            center: Point {
                x: clamp_into(
                    self.center.x as int,
                    bounds.x0 + self.radius,
                    bounds.x1 - self.radius,
                ) as i64,
                y: clamp_into(
                    self.center.y as int,
                    bounds.y0 + self.radius,
                    bounds.y1 - self.radius,
                ) as i64,
            },
            radius: self.radius,
        }
    }

    fn translate(&self, x: i64, y: i64) -> (r: Circle) {
        Circle { center: Point { x: self.center.x + x, y: self.center.y + y }, radius: self.radius }
    }

    fn shrink(&self, k: i64) -> (r: Circle) {
        Circle { center: self.center, radius: self.radius - k }
    }

    fn clamp(&self, bounds: Rect) -> (r: Circle) {
        Circle {
            center: Point {
                x: clamp_coord(self.center.x, bounds.x0 + self.radius, bounds.x1 - self.radius),
                y: clamp_coord(self.center.y, bounds.y0 + self.radius, bounds.y1 - self.radius),
            },
            radius: self.radius,
        }
    }
}

/// Clamping a rectangle never changes its size, and puts it inside the
/// bounds wherever the bounds are at least as wide and as high as it is.
pub proof fn lemma_rect_clamp(r: Rect, bounds: Rect)
    requires
        r.can_clamp(bounds),
    ensures
        r.clamped(bounds).spec_width() == r.spec_width(),
        r.clamped(bounds).spec_height() == r.spec_height(),
        r.spec_width() <= bounds.spec_width() && r.spec_height() <= bounds.spec_height()
            ==> bounds.contains_rect(r.clamped(bounds)),
        bounds.contains_rect(r) && r.x0 <= r.x1 && r.y0 <= r.y1 ==> r.clamped(bounds) == r,
{
}

/// Clamping a circle never changes its radius, and puts its bounding box
/// inside the bounds wherever the bounds are at least as wide and as high as
/// its diameter.
pub proof fn lemma_circle_clamp(c: Circle, bounds: Rect)
    requires
        c.can_clamp(bounds),
    ensures
        c.clamped(bounds).radius == c.radius,
        2 * c.radius <= bounds.spec_width() && 2 * c.radius <= bounds.spec_height() ==> {
            let bb = c.clamped(bounds).bounding_box();
            &&& bounds.x0 <= bb.0
            &&& bounds.y0 <= bb.1
            &&& bb.2 <= bounds.x1
            &&& bb.3 <= bounds.y1
        },
{
}

/// Translating a rectangle keeps its size, and translating it back gives
/// the rectangle that was started from.
pub proof fn lemma_rect_translate_back(r: Rect, x: i64, y: i64)
    requires
        r.can_translate(x, y),
        x != i64::MIN,
        y != i64::MIN,
    ensures
        r.translated(x, y).can_translate((-x) as i64, (-y) as i64),
        r.translated(x, y).translated((-x) as i64, (-y) as i64) == r,
        r.translated(x, y).spec_width() == r.spec_width(),
        r.translated(x, y).spec_height() == r.spec_height(),
{
}

} // verus!
