//! Grid geometry and the mapping from continuous world coordinates to
//! grid cell indices.

use vstd::prelude::*;
use vstd::arithmetic::div_mod::lemma_fundamental_div_mod;
use vstd::arithmetic::div_mod::lemma_fundamental_div_mod_converse;
use crate::arith::floor_div_i128;
use crate::MAX_CELLS;

verus! {

/// The grid geometry: cell counts, the bounding-box edges the coordinate
/// mapping needs, the kernel radius, and the vertical-flip convention.
#[derive(Clone, Copy, PartialEq, Eq, Structural, Debug)]
pub struct GridConfig {
    pub size_x: usize,
    pub size_y: usize,
    pub min_x: i64,
    pub max_x: i64,
    pub min_y: i64,
    pub radius: u32,
    pub flip_y: bool,
}

impl GridConfig {
    /// The horizontal extent of the bounding box in world units.
    pub open spec fn span_x(self) -> int {
        self.max_x - self.min_x
    }

    /// The number of cells in the dense grids.
    pub open spec fn cells(self) -> int {
        self.size_x * self.size_y
    }

    /// A fully configured geometry.
    pub open spec fn valid(self) -> bool {
        &&& self.size_x >= 1
        &&& self.size_y >= 1
        &&& self.span_x() >= 1
        &&& self.cells() <= MAX_CELLS
    }

    /// The empty state of a grid whose geometry was never configured.
    pub open spec fn unconfigured(self) -> bool {
        self.size_x == 0 && self.size_y == 0
    }

    /// Column index of world coordinate `x`; may fall outside `[0, size_x)`,
    /// in which case callers must discard it.
    pub open spec fn col_center(self, x: int) -> int {
        (x - self.min_x) * self.size_x / self.span_x()
    }

    /// Row index of world coordinate `y`, honoring the flip convention; may
    /// fall outside `[0, size_y)`.
    pub open spec fn row_center(self, y: int) -> int {
        let r0 = (y - self.min_y) * self.size_x / self.span_x();
        if self.flip_y {
            self.size_y - r0 - 1
        } else {
            r0
        }
    }

    /// Dense index of cell `(row, col)`.
    pub open spec fn index_of(self, row: int, col: int) -> int {
        row * self.size_x + col
    }

    /// Row of a dense index.
    pub open spec fn row_of_index(self, i: int) -> int {
        i / (self.size_x as int)
    }

    /// Column of a dense index.
    pub open spec fn col_of_index(self, i: int) -> int {
        i % (self.size_x as int)
    }
}

/// A valid geometry bounds each side by the cell cap.
pub proof fn lemma_side_bounds(g: GridConfig)
    requires
        g.valid(),
    ensures
        g.size_x <= MAX_CELLS,
        g.size_y <= MAX_CELLS,
{
    assert(g.size_x <= MAX_CELLS && g.size_y <= MAX_CELLS) by (nonlinear_arith)
        requires
            g.size_x * g.size_y <= MAX_CELLS,
            g.size_x >= 1,
            g.size_y >= 1,
    ;
}

/// Cell coordinates determine the dense index and vice versa.
pub proof fn lemma_index_bijection(g: GridConfig, row: int, col: int)
    requires
        g.valid(),
        0 <= row < g.size_y,
        0 <= col < g.size_x,
    ensures
        0 <= g.index_of(row, col) < g.cells(),
        g.row_of_index(g.index_of(row, col)) == row,
        g.col_of_index(g.index_of(row, col)) == col,
{
    lemma_fundamental_div_mod_converse(row * g.size_x + col, g.size_x as int, row, col);
    assert(row * g.size_x + col < g.size_x * g.size_y) by (nonlinear_arith)
        requires
            0 <= row < g.size_y,
            0 <= col < g.size_x,
    ;
    assert(row * g.size_x + col >= 0) by (nonlinear_arith)
        requires
            0 <= row,
            0 <= col,
            g.size_x >= 1,
    ;
}

/// Every dense index decomposes into in-range cell coordinates.
pub proof fn lemma_index_decomposition(g: GridConfig, i: int)
    requires
        g.valid(),
        0 <= i < g.cells(),
    ensures
        0 <= g.row_of_index(i) < g.size_y,
        0 <= g.col_of_index(i) < g.size_x,
        g.index_of(g.row_of_index(i), g.col_of_index(i)) == i,
{
    lemma_fundamental_div_mod(i, g.size_x as int);
    let q = g.row_of_index(i);
    let r = g.col_of_index(i);
    assert(0 <= r < g.size_x && 0 <= q < g.size_y) by (nonlinear_arith)
        requires
            i == (g.size_x as int) * q + r,
            0 <= i < g.size_x * g.size_y,
            g.size_x >= 1,
            g.size_y >= 1,
            r == i % (g.size_x as int),
            q == i / (g.size_x as int),
    ;
}

/// A world offset times a capped cell count stays far inside `i128`.
proof fn lemma_scaled_offset_bounds(d: int, size_x: int)
    requires
        -0x2_0000_0000_0000_0000 <= d <= 0x2_0000_0000_0000_0000,
        0 <= size_x <= MAX_CELLS,
    ensures
        -0x10_0000_0000_0000_0000_0000_0000 <= d * size_x <= 0x10_0000_0000_0000_0000_0000_0000,
{
    assert(-0x10_0000_0000_0000_0000_0000_0000 <= d * size_x
        <= 0x10_0000_0000_0000_0000_0000_0000) by (nonlinear_arith)
        requires
            -0x2_0000_0000_0000_0000 <= d <= 0x2_0000_0000_0000_0000,
            0 <= size_x <= 0x4000_0000,
    ;
}

/// Computes [`GridConfig::col_center`] exactly.
pub fn col_center_x(g: &GridConfig, x: i64) -> (c: i128)
    requires
        g.valid(),
    ensures
        c == g.col_center(x as int),
        -0x101_0000_0000_0000_0000_0000_0000 <= c <= 0x101_0000_0000_0000_0000_0000_0000,
{
    proof {
        lemma_side_bounds(*g);
    }
    let d: i128 = x as i128 - g.min_x as i128;
    proof {
        lemma_scaled_offset_bounds(d as int, g.size_x as int);
    }
    let num: i128 = d * (g.size_x as i128);
    let span: i128 = g.max_x as i128 - g.min_x as i128;
    floor_div_i128(num, span)
}

/// Computes [`GridConfig::row_center`] exactly.
pub fn row_center_y(g: &GridConfig, y: i64) -> (r: i128)
    requires
        g.valid(),
    ensures
        r == g.row_center(y as int),
        -0x101_0000_0000_0000_0000_0000_0000 <= r <= 0x101_0000_0000_0000_0000_0000_0000,
{
    proof {
        lemma_side_bounds(*g);
    }
    let d: i128 = y as i128 - g.min_y as i128;
    proof {
        lemma_scaled_offset_bounds(d as int, g.size_x as int);
    }
    let num: i128 = d * (g.size_x as i128);
    let span: i128 = g.max_x as i128 - g.min_x as i128;
    let r0 = floor_div_i128(num, span);
    if g.flip_y {
        g.size_y as i128 - r0 - 1
    } else {
        r0
    }
}

} // verus!
