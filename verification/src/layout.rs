//! Decisions of the window around the pickers: its measures, what a key
//! does, which edges a format button has, and where the squares of the
//! checkered background lie.

use vstd::prelude::*;
use crate::shape::Rect;
use crate::surface::{MAX_EXTENT, PX};

verus! {

/// The measures of the window's parts, in sub-pixel units.
#[derive(Clone, Copy, Debug, PartialEq, Eq, Structural)]
pub struct Sizing {
    /// The space around and between the pickers.
    pub padding: i64,
    /// The side of the plane, and the height of the sliders.
    pub picker_size: i64,
    /// The width of a slider.
    pub slider_size: i64,
    /// The height of the swatch of the current color.
    pub current_swatch_size: i64,
    /// The height of the swatch of the initial color.
    pub initial_swatch_size: i64,
    /// The height of the row of format buttons.
    pub button_height: i64,
    /// What the platform's window frame takes of the width.
    pub extra_width: i64,
    /// What the platform's window frame takes of the height.
    pub extra_height: i64,
}

impl Sizing {
    /// Whether every measure is one that a surface could have.
    pub open spec fn wf(self) -> bool {
        &&& 0 <= self.padding <= MAX_EXTENT
        &&& 0 <= self.picker_size <= MAX_EXTENT
        &&& 0 <= self.slider_size <= MAX_EXTENT
        &&& 0 <= self.current_swatch_size <= MAX_EXTENT
        &&& 0 <= self.initial_swatch_size <= MAX_EXTENT
        &&& 0 <= self.button_height <= MAX_EXTENT
        &&& 0 <= self.extra_width <= MAX_EXTENT
        &&& 0 <= self.extra_height <= MAX_EXTENT
    }

    /// The width of the window: the plane and both sliders, padded on each
    /// side of each.
    pub open spec fn spec_window_width(self) -> int {
        self.padding * 4 + self.picker_size + self.slider_size * 2 + self.extra_width
    }

    /// The height of the window: both swatches, the padded pickers and the
    /// buttons.
    pub open spec fn spec_window_height(self) -> int {
        self.current_swatch_size + self.initial_swatch_size + self.padding * 2 + self.picker_size
            + self.button_height + self.extra_height
    }

    /// The width and the height of the window.
    pub fn window_size(&self) -> (size: (i64, i64))
        requires
            self.wf(),
        ensures
            size.0 == self.spec_window_width(),
            size.1 == self.spec_window_height(),
    {
        (self.window_width(), self.window_height())
    }

    /// The width of the window.
    pub fn window_width(&self) -> (w: i64)
        requires
            self.wf(),
        ensures
            w == self.spec_window_width(),
    {
        self.padding * 4 + self.picker_size + self.slider_size * 2 + self.extra_width
    }

    /// The height of the window.
    pub fn window_height(&self) -> (h: i64)
        requires
            self.wf(),
        ensures
            h == self.spec_window_height(),
    {
        self.current_swatch_size + self.initial_swatch_size + self.padding * 2 + self.picker_size
            + self.button_height + self.extra_height
    }

    /// The side of a square of the checkered background: a quarter of a
    /// slider's width.
    pub fn checker_size(&self) -> (side: i64)
        requires
            self.wf(),
        ensures
            side == self.slider_size / 4,
    {
        self.slider_size / 4
    }
}

/// The kinds of key that the window tells apart.
#[derive(Clone, Copy, Debug, PartialEq, Eq, Structural)]
pub enum KeyKind {
    /// The enter key.
    Enter,
    /// Meta, control, shift or alt.
    Modifier,
    /// Any other key.
    Other,
}

/// What the release of a key does.
#[derive(Clone, Copy, Debug, PartialEq, Eq, Structural)]
pub enum KeyAction {
    /// Print the current color and quit.
    Commit,
    /// Quit without printing.
    Abort,
    /// Nothing: hand the event on.
    Pass,
}

/// What the release of a key of each kind does.
pub open spec fn key_action_of(key: KeyKind) -> KeyAction {
    match key {
        KeyKind::Enter => KeyAction::Commit,
        KeyKind::Modifier => KeyAction::Pass,
        KeyKind::Other => KeyAction::Abort,
    }
}

/// Decides what the release of a key does: enter commits, a modifier alone
/// does nothing, any other key aborts.
pub fn key_action(key: KeyKind) -> (action: KeyAction)
    ensures
        action == key_action_of(key),
{
    match key {
        KeyKind::Enter => KeyAction::Commit,
        KeyKind::Modifier => KeyAction::Pass,
        KeyKind::Other => KeyAction::Abort,
    }
}

/// Whether the button at `index` of `len` is the first, and whether it is
/// the last, of its row.
pub fn button_edges(index: usize, len: usize) -> (edges: (bool, bool))
    requires
        index < len,
    ensures
        edges.0 == (index == 0),
        edges.1 == (index == len - 1),
{
    (index == 0, index == len - 1)
}

/// How many steps of `step` it takes to walk `extent` from zero.
pub open spec fn checker_count(extent: int, step: int) -> int {
    (extent + step - 1) / step
}

/// Where the first of the two squares of the cell in column `i` and row `j`
/// stands in the list, with `rows` cells to the column.
pub open spec fn cell_index(i: int, j: int, rows: int) -> int {
    2 * (i * rows + j)
}

/// The upper right square of the cell that starts at pixel `(x, y)`, in
/// sub-pixel units.
pub open spec fn upper_square(x: int, y: int, side: int) -> Rect {
    Rect {
        x0: (PX * x + side) as i64,
        y0: (PX * y) as i64,
        x1: (PX * x + 2 * side) as i64,
        y1: (PX * y + side) as i64,
    }
}

/// The lower left square of the cell that starts at pixel `(x, y)`, in
/// sub-pixel units.
pub open spec fn lower_square(x: int, y: int, side: int) -> Rect {
    Rect {
        x0: (PX * x) as i64,
        y0: (PX * y + side) as i64,
        x1: (PX * x + side) as i64,
        y1: (PX * y + 2 * side) as i64,
    }
}

/// A cell that comes earlier in the walk stands earlier in the list.
pub proof fn lemma_cell_order(i0: int, j0: int, i: int, j: int, rows: int)
    requires
        0 <= j0 < rows,
        0 <= j <= rows,
        0 <= i0,
        i0 < i || (i0 == i && j0 <= j),
    ensures
        0 <= cell_index(i0, j0, rows),
        i0 == i && j0 == j ==> cell_index(i0, j0, rows) == cell_index(i, j, rows),
        !(i0 == i && j0 == j) ==> cell_index(i0, j0, rows) + 2 <= cell_index(i, j, rows),
{
    assert(0 <= i0 * rows) by (nonlinear_arith)
        requires
            0 <= i0,
            0 <= rows,
    ;
    if i0 < i {
        assert((i0 + 1) * rows <= i * rows) by (nonlinear_arith)
            requires
                i0 + 1 <= i,
                0 <= rows,
        ;
        assert((i0 + 1) * rows == i0 * rows + rows) by (nonlinear_arith);
    }
}

/// Every step of the walk starts inside the extent, and the walk takes no
/// more steps than the extent has pixels.
pub proof fn lemma_checker_walk(extent: int, step: int, i: int)
    requires
        0 <= extent,
        0 < step,
        0 <= i < checker_count(extent, step),
    ensures
        0 <= step * i < extent,
        checker_count(extent, step) <= extent,
{
    let n = checker_count(extent, step);
    assert(0 <= step * i < extent && n <= extent) by (nonlinear_arith)
        requires
            0 <= extent,
            0 < step,
            0 <= i < n,
            n == (extent + step - 1) / step,
    ;
}

/// Counts the steps of `step` that it takes to walk `extent` from zero.
pub fn count_steps(extent: usize, step: usize) -> (n: usize)
    requires
        0 < step,
    ensures
        n == checker_count(extent as int, step as int),
        n <= extent,
{
    if extent == 0 {
        assert((step as int - 1) / (step as int) == 0) by (nonlinear_arith)
            requires
                0 < step,
        ;
        0
    } else {
        let n: usize = (extent - 1) / step + 1;
        assert(n == checker_count(extent as int, step as int) && n <= extent) by (nonlinear_arith)
            requires
                0 < extent,
                0 < step,
                n == (extent - 1) / (step as int) + 1,
        ;
        n
    }
}

/// The grey squares of the checkered background over `width` by `height`
/// pixels, in sub-pixel units. The surface is walked in cells of `step`
/// pixels each way, column by column, and of each cell the square of the
/// given side to the upper right and the one to the lower left are grey.
#[verifier::rlimit(40)]
pub fn checker_squares(width: usize, height: usize, step: usize, side: i64) -> (squares: Vec<Rect>)
    requires
        0 < step,
        width <= MAX_EXTENT,
        height <= MAX_EXTENT,
        0 <= side <= MAX_EXTENT,
    ensures
        squares@.len() == 2 * (checker_count(width as int, step as int) * checker_count(
            height as int,
            step as int,
        )),
        forall|i: int, j: int|
            0 <= i < checker_count(width as int, step as int) && 0 <= j < checker_count(
                height as int,
                step as int,
            ) ==> {
                let at = #[trigger] cell_index(i, j, checker_count(height as int, step as int));
                &&& 0 <= at
                &&& at + 1 < squares@.len()
                &&& squares@[at] == upper_square(step * i, step * j, side as int)
                &&& squares@[at + 1] == lower_square(step * i, step * j, side as int)
            },
{
    let cols: usize = count_steps(width, step);
    let rows: usize = count_steps(height, step);
    let ghost rows_i = rows as int;
    let mut squares: Vec<Rect> = Vec::new();
    let mut i: usize = 0;
    while i < cols
        invariant
            i <= cols,
            cols == checker_count(width as int, step as int),
            rows == checker_count(height as int, step as int),
            rows_i == rows,
            0 < step,
            width <= MAX_EXTENT,
            height <= MAX_EXTENT,
            0 <= side <= MAX_EXTENT,
            squares@.len() == 2 * (i * rows),
            forall|i0: int, j0: int|
                0 <= i0 < i && 0 <= j0 < rows_i ==> {
                    let at = #[trigger] cell_index(i0, j0, rows_i);
                    &&& 0 <= at
                    &&& at + 1 < squares@.len()
                    &&& squares@[at] == upper_square(step * i0, step * j0, side as int)
                    &&& squares@[at + 1] == lower_square(step * i0, step * j0, side as int)
                },
        decreases cols - i,
    {
        let mut j: usize = 0;
        while j < rows
            invariant
                i < cols,
                j <= rows,
                cols == checker_count(width as int, step as int),
                rows == checker_count(height as int, step as int),
                rows_i == rows,
                0 < step,
                width <= MAX_EXTENT,
                height <= MAX_EXTENT,
                0 <= side <= MAX_EXTENT,
                squares@.len() == 2 * (i * rows + j),
                forall|i0: int, j0: int|
                    0 <= j0 < rows_i && (0 <= i0 < i || (i0 == i && j0 < j)) ==> {
                        let at = #[trigger] cell_index(i0, j0, rows_i);
                        &&& 0 <= at
                        &&& at + 1 < squares@.len()
                        &&& squares@[at] == upper_square(step * i0, step * j0, side as int)
                        &&& squares@[at + 1] == lower_square(step * i0, step * j0, side as int)
                    },
            decreases rows - j,
        {
            proof {
                lemma_checker_walk(width as int, step as int, i as int);
                lemma_checker_walk(height as int, step as int, j as int);
            }
            let left: i64 = PX * ((step * i) as i64);
            let top: i64 = PX * ((step * j) as i64);
            let ghost before = squares@;
            squares.push(Rect { x0: left + side, y0: top, x1: left + 2 * side, y1: top + side });
            squares.push(Rect { x0: left, y0: top + side, x1: left + side, y1: top + 2 * side });
            proof {
                assert forall|i0: int, j0: int|
                    0 <= j0 < rows_i && (0 <= i0 < i || (i0 == i && j0 < j + 1)) implies {
                    let at = #[trigger] cell_index(i0, j0, rows_i);
                    &&& 0 <= at
                    &&& at + 1 < squares@.len()
                    &&& squares@[at] == upper_square(step * i0, step * j0, side as int)
                    &&& squares@[at + 1] == lower_square(step * i0, step * j0, side as int)
                } by {
                    let at = cell_index(i0, j0, rows_i);
                    lemma_cell_order(i0, j0, i as int, j as int, rows_i);
                    if i0 == i && j0 == j {
                        assert(at == before.len());
                    } else {
                        assert(at + 1 < before.len());
                        assert(squares@[at] == before[at]);
                        assert(squares@[at + 1] == before[at + 1]);
                    }
                }
            }
            j = j + 1;
        }
        proof {
            assert((i + 1) * rows == i * rows + rows) by (nonlinear_arith);
        }
        i = i + 1;
    }
    squares
}

} // verus!
