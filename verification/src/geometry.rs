//! Pixel-level geometry of the 9x9 grid: region bounds, cell indexing,
//! and the per-pixel mask predicate that keeps ink off borders and givens.

use vstd::prelude::*;

verus! {

/// Width of the e-ink canvas in pixels.
pub const CANVAS_WIDTH: u32 = 1404;
/// Height of the e-ink canvas in pixels.
pub const CANVAS_HEIGHT: u32 = 1872;
/// Side length of one sudoku cell in pixels.
pub const CELL_SIZE: u32 = 130;
/// Side length of the whole 9x9 grid in pixels.
pub const GRID_SIZE: u32 = 9 * CELL_SIZE;
/// Left and top pixel offset that centers the grid horizontally.
pub const GRID_OFFSET: u32 = (CANVAS_WIDTH - GRID_SIZE) / 2;
/// Thickness of a thin grid line in pixels.
pub const LINE_WIDTH: u32 = 2;
/// Folded coordinates at or below this value lie on a cell border.
pub const CUTOFF_START: u32 = LINE_WIDTH - 1;
/// Folded coordinates at or above this value lie on a cell border.
pub const CUTOFF_END: u32 = CELL_SIZE - LINE_WIDTH;

/// An axis-aligned pixel rectangle; an all-zero rectangle stands for the
/// empty region.
#[derive(Clone, Copy, Debug, PartialEq, Eq, Structural)]
pub struct Rect {
    pub top: u32,
    pub left: u32,
    pub width: u32,
    pub height: u32,
}

pub open spec fn rect_contains(r: Rect, px: int, py: int) -> bool {
    &&& r.left <= px < r.left + r.width
    &&& r.top <= py < r.top + r.height
}

pub open spec fn rect_is_empty(r: Rect) -> bool {
    r.width == 0 || r.height == 0
}

/// The drawable region: strokes whose samples fall outside it are abandoned.
pub open spec fn canvas_contains(px: int, py: int) -> bool {
    &&& GRID_OFFSET <= px < GRID_OFFSET + GRID_SIZE
    &&& GRID_OFFSET <= py < GRID_OFFSET + GRID_SIZE
}

/// Runtime test for `canvas_contains`.
pub fn in_canvas(px: i32, py: i32) -> (r: bool)
    ensures
        r == canvas_contains(px as int, py as int),
{
    let off = GRID_OFFSET as i32;
    let end = (GRID_OFFSET + GRID_SIZE) as i32;
    off <= px && px < end && off <= py && py < end
}

/// The pixel extent the rasterizer is allowed to touch at all: grid-local
/// coordinates from 0 through `GRID_SIZE` on both axes.
pub open spec fn in_grid_extent(px: int, py: int) -> bool {
    &&& 0 <= px - GRID_OFFSET <= GRID_SIZE
    &&& 0 <= py - GRID_OFFSET <= GRID_SIZE
}

/// Index of the cell owning a grid-local coordinate, counted row-major.
pub open spec fn cell_index(lx: int, ly: int) -> int {
    (ly / (CELL_SIZE as int)) * 9 + lx / (CELL_SIZE as int)
}

/// A grid-local coordinate folded into its cell lies clear of the border
/// margin reserved for the printed grid lines.
pub open spec fn off_border(l: int) -> bool {
    CUTOFF_START < l % (CELL_SIZE as int) < CUTOFF_END
}

/// A pixel may receive ink exactly when it lies in the grid extent, clear of
/// the border margin on both axes, and its owning cell holds no given digit.
pub open spec fn writable_pixel(mask: Seq<u8>, px: int, py: int) -> bool {
    let lx = px - GRID_OFFSET;
    let ly = py - GRID_OFFSET;
    &&& in_grid_extent(px, py)
    &&& off_border(lx)
    &&& off_border(ly)
    &&& mask[cell_index(lx, ly)] == 0
}

/// A pixel whose folded coordinates are clear of the border margin on both
/// axes belongs to the interior of exactly the cell `cell_index` names.
pub open spec fn in_cell_interior(px: int, py: int, cell: int) -> bool {
    let lx = px - GRID_OFFSET;
    let ly = py - GRID_OFFSET;
    &&& in_grid_extent(px, py)
    &&& off_border(lx)
    &&& off_border(ly)
    &&& cell_index(lx, ly) == cell
}

/// The owning cell of an interior pixel is one of the 81 grid cells.
pub proof fn lemma_interior_cell_in_range(px: int, py: int, cell: int)
    requires
        in_cell_interior(px, py, cell),
    ensures
        0 <= cell < 81,
{
    let lx = px - GRID_OFFSET;
    let ly = py - GRID_OFFSET;
    assert(0 <= lx / 130 <= 8 && 0 <= ly / 130 <= 8) by {
        assert(0 <= lx <= 1170 && 2 <= lx % 130 <= 127);
        assert(0 <= ly <= 1170 && 2 <= ly % 130 <= 127);
        assert(lx == 130 * (lx / 130) + lx % 130) by {
            vstd::arithmetic::div_mod::lemma_fundamental_div_mod(lx, 130);
        }
        assert(ly == 130 * (ly / 130) + ly % 130) by {
            vstd::arithmetic::div_mod::lemma_fundamental_div_mod(ly, 130);
        }
        assert(lx / 130 >= 0 && ly / 130 >= 0) by {
            vstd::arithmetic::div_mod::lemma_div_is_ordered(0, lx, 130);
            vstd::arithmetic::div_mod::lemma_div_is_ordered(0, ly, 130);
        }
    }
}

/// No stroke pixel ever lands in the interior of a cell holding a given
/// digit: a protected cell interior is never writable.
pub proof fn lemma_protected_cell_never_written(mask: Seq<u8>, px: int, py: int, cell: int)
    requires
        in_cell_interior(px, py, cell),
        mask[cell] != 0,
    ensures
        !writable_pixel(mask, px, py),
{
}

/// Pixel position of a digit label inside a cell, from its column and row.
pub fn cell_position(x: u32, y: u32) -> (p: (u32, u32))
    requires
        x < 9,
        y < 9,
    ensures
        p.0 == GRID_OFFSET + CELL_SIZE / 3 + x * CELL_SIZE,
        p.1 == GRID_OFFSET + (CELL_SIZE * 3) / 4 + y * CELL_SIZE,
{
    (
        GRID_OFFSET + CELL_SIZE / 3 + x * CELL_SIZE,
        GRID_OFFSET + (CELL_SIZE * 3) / 4 + y * CELL_SIZE,
    )
}

/// The drawable canvas region as a rectangle.
pub fn canvas_rect() -> (r: Rect)
    ensures
        r == (Rect {
            top: GRID_OFFSET,
            left: GRID_OFFSET,
            width: GRID_SIZE,
            height: GRID_SIZE,
        }),
{
    Rect { top: GRID_OFFSET, left: GRID_OFFSET, width: GRID_SIZE, height: GRID_SIZE }
}

/// The grid region including the outermost border lines, used for
/// whole-grid repaints.
pub fn grid_rect() -> (r: Rect)
    ensures
        r == (Rect {
            top: (GRID_OFFSET - LINE_WIDTH) as u32,
            left: (GRID_OFFSET - LINE_WIDTH) as u32,
            width: (GRID_SIZE + 2 * LINE_WIDTH) as u32,
            height: (GRID_SIZE + 2 * LINE_WIDTH) as u32,
        }),
{
    Rect {
        top: GRID_OFFSET - LINE_WIDTH,
        left: GRID_OFFSET - LINE_WIDTH,
        width: GRID_SIZE + 2 * LINE_WIDTH,
        height: GRID_SIZE + 2 * LINE_WIDTH,
    }
}

} // verus!
