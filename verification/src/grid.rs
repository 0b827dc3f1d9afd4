//! The puzzle grid: the 81-cell digit mask that protects given cells, the
//! call into the puzzle engine, and the command lists that repaint the grid
//! skeleton and its digits.

use vstd::prelude::*;

use crate::geometry::{
    Rect, CELL_SIZE, GRID_OFFSET, GRID_SIZE, LINE_WIDTH,
};

verus! {

/// The 81-cell digit grid: `0` marks an empty, writable cell; `1..=9` marks
/// a protected given digit. Replaced wholesale on regenerate.
pub struct GridMask {
    digits: Vec<u8>,
}

impl View for GridMask {
    type V = Seq<u8>;

    closed spec fn view(&self) -> Seq<u8> {
        self.digits@
    }
}

impl GridMask {
    /// Every mask holds exactly 81 digits, each between 0 and 9.
    pub open spec fn wf(&self) -> bool {
        &&& self@.len() == 81
        &&& forall|i: int| 0 <= i < 81 ==> self@[i] <= 9
    }

    /// Build a mask from the 81 digits the puzzle engine returned.
    pub fn from_digits(digits: Vec<u8>) -> (m: GridMask)
        requires
            digits@.len() == 81,
            forall|i: int| 0 <= i < 81 ==> digits@[i] <= 9,
        ensures
            m.wf(),
            m@ == digits@,
    {
        GridMask { digits }
    }

    /// The digit stored at a cell index.
    pub fn digit(&self, idx: usize) -> (d: u8)
        requires
            self.wf(),
            idx < 81,
        ensures
            d == self@[idx as int],
    {
        self.digits[idx]
    }

    /// Whether a cell holds a given digit and must not take ink.
    pub fn is_protected(&self, idx: usize) -> (r: bool)
        requires
            self.wf(),
            idx < 81,
        ensures
            r == (self@[idx as int] != 0),
    {
        self.digits[idx] != 0
    }

    /// Runtime test for `writable_pixel`: the short-circuit mask checks the
    /// rasterizer applies to every candidate pixel.
    pub fn writable(&self, px: i32, py: i32) -> (r: bool)
        requires
            self.wf(),
        ensures
            r == crate::geometry::writable_pixel(self@, px as int, py as int),
    {
        let off = GRID_OFFSET as i64;
        let size = GRID_SIZE as i64;
        let lx = px as i64 - off;
        let ly = py as i64 - off;
        if lx < 0 || lx > size || ly < 0 || ly > size {
            return false;
        }
        let cs = CELL_SIZE as i64;
        let fx = lx % cs;
        let fy = ly % cs;
        let lo = crate::geometry::CUTOFF_START as i64;
        let hi = crate::geometry::CUTOFF_END as i64;
        if !(lo < fx && fx < hi) || !(lo < fy && fy < hi) {
            return false;
        }
        let idx = (ly / cs) * 9 + lx / cs;
        proof {
            crate::geometry::lemma_interior_cell_in_range(
                px as int,
                py as int,
                crate::geometry::cell_index(lx as int, ly as int),
            );
        }
        self.digits[idx as usize] == 0
    }
}

/// Whether a digit grid shows at least one given digit.
pub open spec fn has_clue(digits: Seq<u8>) -> bool {
    exists|i: int| 0 <= i < 81 && digits[i] != 0
}

/// Relies on `sudoku::Sudoku::generate` and `Sudoku::to_bytes`: a freshly
/// generated puzzle is returned as 81 bytes, empty cells 0, clues 1 through
/// 9. The engine removes clues only while the puzzle stays uniquely
/// solvable, and an all-blank grid is not, so at least one clue remains.
/// Which puzzle comes back is up to the engine's randomness, so nothing
/// more is claimed of the digits.
#[verifier::external_body]
fn engine_puzzle_digits() -> (r: Vec<u8>)
    ensures
        r@.len() == 81,
        forall|i: int| 0 <= i < 81 ==> r@[i] <= 9,
        has_clue(r@),
{
    sudoku::Sudoku::generate().to_bytes().to_vec()
}

/// Ask the puzzle engine for a new puzzle and store it as the grid mask:
/// the mask holds exactly the engine's digits, at least one of them a
/// given.
pub fn generate_puzzle() -> (m: GridMask)
    ensures
        m.wf(),
        has_clue(m@),
{
    let digits = engine_puzzle_digits();
    GridMask::from_digits(digits)
}

/// One straight grid line to hand to the display driver.
#[derive(Clone, Copy, Debug, PartialEq, Eq, Structural)]
pub struct LineCmd {
    pub x0: u32,
    pub y0: u32,
    pub x1: u32,
    pub y1: u32,
    pub width: u32,
}

/// The i-th vertical line of the grid skeleton; every third line is drawn
/// double-thick to mark the 3x3 boxes.
pub open spec fn vline(i: int) -> LineCmd {
    LineCmd {
        x0: (GRID_OFFSET + i * CELL_SIZE) as u32,
        y0: GRID_OFFSET,
        x1: (GRID_OFFSET + i * CELL_SIZE) as u32,
        y1: (GRID_OFFSET + GRID_SIZE) as u32,
        width: if i % 3 == 0 { (2 * LINE_WIDTH) as u32 } else { LINE_WIDTH },
    }
}

/// The i-th horizontal line of the grid skeleton.
pub open spec fn hline(i: int) -> LineCmd {
    LineCmd {
        x0: GRID_OFFSET,
        y0: (GRID_OFFSET + i * CELL_SIZE) as u32,
        x1: (GRID_OFFSET + GRID_SIZE) as u32,
        y1: (GRID_OFFSET + i * CELL_SIZE) as u32,
        width: if i % 3 == 0 { (2 * LINE_WIDTH) as u32 } else { LINE_WIDTH },
    }
}

/// The 20 lines of the grid skeleton: 10 vertical, then 10 horizontal.
pub fn grid_line_cmds() -> (v: Vec<LineCmd>)
    ensures
        v@.len() == 20,
        forall|i: int| 0 <= i < 10 ==> v@[i] == vline(i),
        forall|i: int| 0 <= i < 10 ==> v@[10 + i] == hline(i),
{
    let mut v: Vec<LineCmd> = Vec::new();
    let mut i: u32 = 0;
    while i < 10
        invariant
            i <= 10,
            v@.len() == i,
            forall|k: int| 0 <= k < i ==> v@[k] == vline(k),
        decreases 10 - i,
    {
        let x = GRID_OFFSET + i * CELL_SIZE;
        let w = if i % 3 == 0 { 2 * LINE_WIDTH } else { LINE_WIDTH };
        v.push(LineCmd { x0: x, y0: GRID_OFFSET, x1: x, y1: GRID_OFFSET + GRID_SIZE, width: w });
        i = i + 1;
    }
    let mut j: u32 = 0;
    while j < 10
        invariant
            j <= 10,
            v@.len() == 10 + j,
            forall|k: int| 0 <= k < 10 ==> v@[k] == vline(k),
            forall|k: int| 0 <= k < j ==> v@[10 + k] == hline(k),
        decreases 10 - j,
    {
        let y = GRID_OFFSET + j * CELL_SIZE;
        let w = if j % 3 == 0 { 2 * LINE_WIDTH } else { LINE_WIDTH };
        v.push(LineCmd { x0: GRID_OFFSET, y0: y, x1: GRID_OFFSET + GRID_SIZE, y1: y, width: w });
        j = j + 1;
    }
    v
}

/// Corner points of the filled polygon that blanks the grid before a
/// repaint, in draw order.
pub fn clear_polygon_points() -> (v: Vec<(i32, i32)>)
    ensures
        v@.len() == 4,
        v@[0] == ((GRID_OFFSET - LINE_WIDTH) as i32, (GRID_OFFSET - LINE_WIDTH) as i32),
        v@[1] == ((GRID_OFFSET - LINE_WIDTH) as i32, (GRID_OFFSET - LINE_WIDTH + GRID_SIZE) as i32),
        v@[2] == (
            (GRID_OFFSET - LINE_WIDTH + GRID_SIZE) as i32,
            (GRID_OFFSET - LINE_WIDTH + GRID_SIZE) as i32,
        ),
        v@[3] == ((GRID_OFFSET - LINE_WIDTH + GRID_SIZE) as i32, (GRID_OFFSET - LINE_WIDTH) as i32),
{
    let s = (GRID_OFFSET - LINE_WIDTH) as i32;
    let e = s + GRID_SIZE as i32;
    let mut v: Vec<(i32, i32)> = Vec::new();
    v.push((s, s));
    v.push((s, e));
    v.push((e, e));
    v.push((e, s));
    v
}

/// One digit label to draw: the pixel position of the label and the digit.
#[derive(Clone, Copy, Debug, PartialEq, Eq, Structural)]
pub struct DigitCmd {
    pub x: u32,
    pub y: u32,
    pub digit: u8,
}

/// The label for the cell at `idx` holding digit `d`.
pub open spec fn label_cmd(idx: int, d: u8) -> DigitCmd {
    DigitCmd {
        x: (GRID_OFFSET + CELL_SIZE / 3 + (idx % 9) * CELL_SIZE) as u32,
        y: (GRID_OFFSET + (CELL_SIZE * 3) / 4 + (idx / 9) * CELL_SIZE) as u32,
        digit: d,
    }
}

/// The labels of all given digits among the first `n` cells, in cell order.
pub open spec fn label_seq(digits: Seq<u8>, n: int) -> Seq<DigitCmd>
    decreases n,
{
    if n <= 0 {
        Seq::empty()
    } else {
        let rest = label_seq(digits, n - 1);
        if digits[n - 1] != 0 {
            rest.push(label_cmd(n - 1, digits[n - 1]))
        } else {
            rest
        }
    }
}

/// Labels for every given digit of the mask, in cell order; empty cells get
/// no label.
pub fn digit_cmds(mask: &GridMask) -> (v: Vec<DigitCmd>)
    requires
        mask.wf(),
    ensures
        v@ == label_seq(mask@, 81),
{
    let mut v: Vec<DigitCmd> = Vec::new();
    let mut idx: usize = 0;
    while idx < 81
        invariant
            mask.wf(),
            idx <= 81,
            v@ == label_seq(mask@, idx as int),
        decreases 81 - idx,
    {
        let d = mask.digit(idx);
        if d != 0 {
            let col = (idx % 9) as u32;
            let row = (idx / 9) as u32;
            let (x, y) = crate::geometry::cell_position(col, row);
            v.push(DigitCmd { x, y, digit: d });
        }
        idx = idx + 1;
    }
    v
}

/// How urgently and how faithfully a refresh must render.
#[derive(Clone, Copy, Debug, PartialEq, Eq, Structural)]
pub enum RefreshKind {
    /// Fast monochrome update for incremental ink; fire and forget.
    FastPartial,
    /// Full-fidelity grayscale update for whole-grid repaints.
    FullFidelity,
}

/// A display refresh request: the region to update, the rendering mode, and
/// whether the caller must block until the panel has updated.
#[derive(Clone, Copy, Debug, PartialEq, Eq, Structural)]
pub struct RefreshCmd {
    pub region: Rect,
    pub kind: RefreshKind,
    pub wait: bool,
}

/// The refresh owed after one rasterized stroke segment: exactly the
/// segment's bounding rectangle, fast and non-blocking.
pub fn stroke_refresh(region: Rect) -> (c: RefreshCmd)
    ensures
        c == (RefreshCmd { region, kind: RefreshKind::FastPartial, wait: false }),
{
    RefreshCmd { region, kind: RefreshKind::FastPartial, wait: false }
}

/// The refresh owed after a whole-grid repaint: the grid region in full
/// fidelity, always blocking until the panel has physically updated, so a
/// new stroke never renders over a still-updating screen.
pub fn grid_refresh() -> (c: RefreshCmd)
    ensures
        c.region == (Rect {
            top: (GRID_OFFSET - LINE_WIDTH) as u32,
            left: (GRID_OFFSET - LINE_WIDTH) as u32,
            width: (GRID_SIZE + 2 * LINE_WIDTH) as u32,
            height: (GRID_SIZE + 2 * LINE_WIDTH) as u32,
        }),
        c.kind == RefreshKind::FullFidelity,
        c.wait,
{
    RefreshCmd { region: crate::geometry::grid_rect(), kind: RefreshKind::FullFidelity, wait: true }
}

} // verus!
