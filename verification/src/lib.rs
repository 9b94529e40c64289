//! A discretized 2-D heat-density surface with gradient color mapping.
//!
//! Weighted points are splatted into a dense grid of cells with a radial
//! falloff kernel; the accumulated densities are then converted to RGBA
//! colors by piecewise-linear interpolation across an ordered list of
//! gradient stops.
//!
//! All continuous quantities (world coordinates, point values, densities,
//! and the normalization ceiling) are fixed-point integers carrying three
//! fractional decimal digits: a stored value of [`FP_SCALE`] stands for 1.0.

use vstd::prelude::*;

pub mod arith;
pub mod color;
pub mod heatmap;
pub mod heatmap_v2;
pub mod kernel;
pub mod mapper;
pub mod rgba;

verus! {

/// Fixed-point scale: stored values carry three fractional decimal digits,
/// so `FP_SCALE` stands for the real number 1.0.
pub const FP_SCALE: i64 = 1000;

/// Upper bound on the number of grid cells a configuration may declare,
/// chosen so that even the packed four-bytes-per-cell color buffer length
/// fits comfortably in `usize`. A request for a larger grid is rejected as
/// a configuration error.
pub const MAX_CELLS: usize = 0x1000_0000;

/// A weighted sample: continuous world position `(x, y)` and the scalar
/// weight `value` it contributes to the density grid, all fixed-point.
#[derive(Clone, Copy, PartialEq, Eq, Structural, Debug)]
pub struct HeatPoint {
    pub x: i64,
    pub y: i64,
    pub value: i64,
}

impl HeatPoint {
    pub fn new(x: i64, y: i64, value: i64) -> (p: HeatPoint)
        ensures
            p == (HeatPoint { x, y, value }),
    {
        HeatPoint { x, y, value }
    }
}

/// The points encoded by a flat sequence of `x, y, value` triples.
pub open spec fn point_triples(s: Seq<i64>) -> Seq<HeatPoint> {
    Seq::new(
        s.len() / 3,
        |k: int| HeatPoint { x: s[3 * k], y: s[3 * k + 1], value: s[3 * k + 2] },
    )
}

/// Everything a grid operation can reject; each variant names the condition
/// that produces it.
#[derive(Clone, Copy, PartialEq, Eq, Structural, Debug)]
pub enum HeatMapError {
    /// A grid width of zero cells was requested.
    ZeroWidth,
    /// A degenerate bounding box: `max_x <= min_x` or `max_y <= min_y`.
    InvalidBounds,
    /// An empty gradient stop list was supplied.
    EmptyGradient,
    /// The requested geometry would exceed [`MAX_CELLS`] cells.
    GridTooLarge,
    /// A flattened point sequence whose length is not a multiple of three.
    TripleLength,
    /// A cell query at a row or column outside the grid.
    OutOfBounds,
}

} // verus!
