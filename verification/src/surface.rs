//! What the picker surfaces share: the recorded extent, the mapping from a
//! pointer position to a fraction, and the drag state machine.
//!
//! Positions and extents are in sub-pixel units, `PX` to the pixel, so that
//! half-pixel marker geometry is exact.

use vstd::prelude::*;
use crate::fixed::{UNIT, unit, round_div, div_round, lemma_round_div_le, lemma_round_div_exact};
use crate::shape::{Point, Size, clamp_into, clamp_coord};

verus! {

/// Sub-pixel units to the pixel.
pub const PX: i64 = 64;

/// The largest extent that a surface records, in sub-pixel units.
pub const MAX_EXTENT: i64 = 4_294_967_296;

/// The fraction of `extent` at which `pos` lies: zero at or before the near
/// edge, one at or beyond the far edge, and `pos / extent` in between.
pub open spec fn axis_fraction(pos: int, extent: int) -> int {
    if pos <= 0 {
        0
    } else if pos >= extent {
        unit()
    } else {
        round_div(pos * unit(), extent)
    }
}

/// Clamping a position to `[0, extent]` and dividing by the extent gives the
/// fraction, which is a valid one; a position before the near edge maps as
/// the near edge does, and one beyond the far edge as the far edge does.
pub proof fn lemma_axis_saturates(pos: int, extent: int)
    requires
        0 < extent,
    ensures
        axis_fraction(pos, extent) == round_div(clamp_into(pos, 0, extent) * unit(), extent),
        0 <= axis_fraction(pos, extent) <= unit(),
        pos <= 0 ==> axis_fraction(pos, extent) == axis_fraction(0, extent),
        pos >= extent ==> axis_fraction(pos, extent) == axis_fraction(extent, extent),
{
    let p = clamp_into(pos, 0, extent);
    assert(0 <= p * unit() <= unit() * extent) by (nonlinear_arith)
        requires
            0 <= p <= extent,
    ;
    lemma_round_div_le(p * unit(), extent, unit());
    lemma_round_div_exact(0, extent);
    assert(0 * extent == 0 && 0 * unit() == 0);
    lemma_round_div_exact(unit(), extent);
    assert(extent * unit() == unit() * extent) by (nonlinear_arith);
}

/// Maps a pointer coordinate to a fraction of the extent.
pub fn map_axis(pos: i64, extent: i64) -> (f: u32)
    requires
        0 < extent <= MAX_EXTENT,
    ensures
        f == axis_fraction(pos as int, extent as int),
        f <= UNIT,
{
    proof {
        lemma_axis_saturates(pos as int, extent as int);
    }
    let p: u64 = clamp_coord(pos, 0, extent) as u64;
    assert(p * (UNIT as u64) <= 4_294_967_296 * 306_000) by (nonlinear_arith)
        requires
            p <= 4_294_967_296,
            UNIT == 306_000,
    ;
    div_round(p * (UNIT as u64), extent as u64) as u32
}

/// Whether a drag is in progress on a surface.
#[derive(Clone, Copy, Debug, PartialEq, Eq, Structural)]
pub enum Phase {
    /// No pointer is captured.
    Idle,
    /// The pointer is captured: every move re-maps the position.
    Dragging,
}

/// What the pointer did.
#[derive(Clone, Copy, Debug, PartialEq, Eq, Structural)]
pub enum PointerEvent {
    /// A button went down at the position.
    Down(Point),
    /// The pointer moved to the position.
    Move(Point),
    /// A button went up.
    Up,
    /// Anything else.
    Other,
}

/// What the caller is to do with the pointer's capture after an event.
#[derive(Clone, Copy, Debug, PartialEq, Eq, Structural)]
pub enum Capture {
    /// Leave it as it is.
    Keep,
    /// Route every later pointer event to this surface.
    Take,
    /// Stop doing so.
    Release,
}

/// The cursor that a surface asks for while the pointer hovers over it.
#[derive(Clone, Copy, Debug, PartialEq, Eq, Structural)]
pub enum CursorHint {
    /// For the plane.
    Crosshair,
    /// For the sliders.
    OpenHand,
}

/// What a surface did with an event and what it asks of its caller.
#[derive(Clone, Copy, Debug, PartialEq, Eq, Structural)]
pub struct Reaction {
    /// What to do with the pointer's capture.
    pub capture: Capture,
    /// Whether to show the surface's hover cursor.
    pub hover: bool,
    /// Whether the color was set from the event's position.
    pub mutated: bool,
}

/// The phase after an event.
pub open spec fn next_phase(phase: Phase, event: PointerEvent) -> Phase {
    match event {
        PointerEvent::Down(_) => Phase::Dragging,
        PointerEvent::Move(_) => phase,
        PointerEvent::Up => Phase::Idle,
        PointerEvent::Other => phase,
    }
}

/// The position that an event sets the color from, if it sets it: that of
/// every press, and that of a move during a drag.
pub open spec fn mutation_point(phase: Phase, event: PointerEvent) -> Option<Point> {
    match event {
        PointerEvent::Down(p) => Some(p),
        PointerEvent::Move(p) => if phase == Phase::Dragging {
            Some(p)
        } else {
            None
        },
        PointerEvent::Up => None,
        PointerEvent::Other => None,
    }
}

/// What a surface in `phase` answers to an event.
pub open spec fn reaction_to(phase: Phase, event: PointerEvent) -> Reaction {
    Reaction {
        capture: match event {
            PointerEvent::Down(_) => Capture::Take,
            PointerEvent::Up => Capture::Release,
            _ => Capture::Keep,
        },
        hover: event is Move,
        mutated: mutation_point(phase, event) is Some,
    }
}

/// A press, two moves and a release: the press and both moves set
/// the color, the release does not and ends the drag, and a move after it
/// sets nothing, whatever the phase was at the start.
pub proof fn lemma_drag(start: Phase, down: Point, first: Point, second: Point, after: Point)
    ensures
        ({
            let pressed = next_phase(start, PointerEvent::Down(down));
            let moved = next_phase(pressed, PointerEvent::Move(first));
            let moved_again = next_phase(moved, PointerEvent::Move(second));
            let released = next_phase(moved_again, PointerEvent::Up);
            &&& mutation_point(start, PointerEvent::Down(down)) == Some(down)
            &&& mutation_point(pressed, PointerEvent::Move(first)) == Some(first)
            &&& mutation_point(moved, PointerEvent::Move(second)) == Some(second)
            &&& mutation_point(moved_again, PointerEvent::Up) is None
            &&& released == Phase::Idle
            &&& mutation_point(released, PointerEvent::Move(after)) is None
            &&& next_phase(released, PointerEvent::Move(after)) == Phase::Idle
        }),
{
}

/// What a `Surface` stands for.
pub ghost struct SurfaceView {
    pub width: int,
    pub height: int,
    pub phase: Phase,
}

impl SurfaceView {
    /// Whether an extent has been recorded on both axes, so that positions
    /// can be mapped.
    pub open spec fn ready(self) -> bool {
        self.width > 0 && self.height > 0
    }

    /// Whole pixels across.
    pub open spec fn columns(self) -> int {
        self.width / (PX as int)
    }

    /// Whole pixels down.
    pub open spec fn rows(self) -> int {
        self.height / (PX as int)
    }
}

/// The extent and drag phase of one picker surface.
#[derive(Clone, Copy, Debug)]
pub struct Surface {
    width: i64,
    height: i64,
    phase: Phase,
}

impl View for Surface {
    type V = SurfaceView;

    closed spec fn view(&self) -> SurfaceView {
        SurfaceView { width: self.width as int, height: self.height as int, phase: self.phase }
    }
}

impl Surface {
    #[verifier::type_invariant]
    spec fn inv(self) -> bool {
        0 <= self.width <= MAX_EXTENT && 0 <= self.height <= MAX_EXTENT
    }

    /// A surface of no extent, idle.
    pub fn new() -> (s: Surface)
        ensures
            s@ == (SurfaceView { width: 0, height: 0, phase: Phase::Idle }),
    {
        Surface { width: 0, height: 0, phase: Phase::Idle }
    }

    /// Records the extent; the phase stays.
    pub fn resize(&mut self, width: i64, height: i64)
        requires
            0 <= width <= MAX_EXTENT,
            0 <= height <= MAX_EXTENT,
        ensures
            final(self)@ == (SurfaceView { width: width as int, height: height as int, ..old(self)@ }),
    {
        *self = Surface { width, height, phase: self.phase };
    }

    /// The recorded extent.
    pub fn extent(&self) -> (size: Size)
        ensures
            size.width == self@.width,
            size.height == self@.height,
            0 <= size.width <= MAX_EXTENT,
            0 <= size.height <= MAX_EXTENT,
    {
        proof {
            use_type_invariant(self);
        }
        Size { width: self.width, height: self.height }
    }

    /// Whole pixels across.
    pub fn columns(&self) -> (n: usize)
        ensures
            n == self@.columns(),
            n * PX <= self@.width,
            n <= MAX_EXTENT / PX,
    {
        proof {
            use_type_invariant(self);
        }
        (self.width / PX) as usize
    }

    /// Whole pixels down.
    pub fn rows(&self) -> (n: usize)
        ensures
            n == self@.rows(),
            n * PX <= self@.height,
            n <= MAX_EXTENT / PX,
    {
        proof {
            use_type_invariant(self);
        }
        (self.height / PX) as usize
    }

    /// The phase.
    pub fn phase(&self) -> (p: Phase)
        ensures
            p == self@.phase,
    {
        self.phase
    }

    /// Takes one step of the drag state machine: moves to the next phase and
    /// returns the position to set the color from, if the event sets it.
    pub fn advance(&mut self, event: PointerEvent) -> (at: Option<Point>)
        ensures
            final(self)@ == (SurfaceView { phase: next_phase(old(self)@.phase, event), ..old(self)@ }),
            at == mutation_point(old(self)@.phase, event),
    {
        proof {
            use_type_invariant(&*self);
        }
        let before: Phase = self.phase;
        match event {
            PointerEvent::Down(p) => {
                *self = Surface { width: self.width, height: self.height, phase: Phase::Dragging };
                Some(p)
            },
            PointerEvent::Move(p) => {
                match before {
                    Phase::Dragging => Some(p),
                    Phase::Idle => None,
                }
            },
            PointerEvent::Up => {
                *self = Surface { width: self.width, height: self.height, phase: Phase::Idle };
                None
            },
            PointerEvent::Other => None,
        }
    }
}

/// The answer of a surface that was in `phase` when `event` came.
pub fn react(phase: Phase, event: PointerEvent) -> (r: Reaction)
    ensures
        r == reaction_to(phase, event),
{
    match event {
        PointerEvent::Down(_) => Reaction { capture: Capture::Take, hover: false, mutated: true },
        PointerEvent::Move(_) => Reaction {
            capture: Capture::Keep,
            hover: true,
            mutated: match phase {
                Phase::Dragging => true,
                Phase::Idle => false,
            },
        },
        PointerEvent::Up => Reaction { capture: Capture::Release, hover: false, mutated: false },
        PointerEvent::Other => Reaction { capture: Capture::Keep, hover: false, mutated: false },
    }
}

} // verus!
