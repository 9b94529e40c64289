//! The immediate-mode heatmap grid: owns the density grid, the derived
//! structured color grid, the configuration, and a queue of pending points
//! for the batched ingestion protocol.

use vstd::prelude::*;
use crate::{HeatMapError, HeatPoint, MAX_CELLS, point_triples};
use crate::rgba::{RGBA, default_gradients};
use crate::mapper::{GridConfig, lemma_index_bijection};
use crate::kernel::{splat_all, splat_target, splat_point};
use crate::color::{colors_of, recolor};
use crate::arith::floor_div_i128;

verus! {

/// The derived grid height: `ceil((max_y - min_y) / per_pixel)` with
/// `per_pixel = (max_x - min_x) / width`, computed exactly as
/// `ceil((max_y - min_y) * width / (max_x - min_x))`.
pub open spec fn derived_height(width: int, min_x: int, max_x: int, min_y: int, max_y: int) -> int {
    ((max_y - min_y) * width + (max_x - min_x) - 1) / (max_x - min_x)
}

/// A grid with positive extent derives at least one row.
proof fn lemma_derived_height_at_least_one(
    width: int,
    min_x: int,
    max_x: int,
    min_y: int,
    max_y: int,
)
    requires
        width >= 1,
        min_x < max_x,
        min_y < max_y,
    ensures
        derived_height(width, min_x, max_x, min_y, max_y) >= 1,
{
    let sx = max_x - min_x;
    let sy = max_y - min_y;
    assert(sy * width + sx - 1 >= sx) by (nonlinear_arith)
        requires
            sy >= 1,
            width >= 1,
            sx >= 1,
    ;
    assert((sy * width + sx - 1) / sx >= 1) by (nonlinear_arith)
        requires
            sy * width + sx - 1 >= sx,
            sx >= 1,
    ;
}

/// A zeroed density grid.
pub(crate) fn zero_grid(n: usize) -> (v: Vec<i64>)
    ensures
        v@.len() == n,
        forall|i: int| 0 <= i < n ==> v@[i] == 0i64,
{
    let mut v: Vec<i64> = Vec::new();
    let mut k: usize = 0;
    while k < n
        invariant
            k <= n,
            v@.len() == k,
            forall|i: int| 0 <= i < k ==> v@[i] == 0i64,
        decreases n - k,
    {
        v.push(0i64);
        k = k + 1;
    }
    v
}

/// A color grid filled with one color.
pub(crate) fn fill_colors(n: usize, c: RGBA) -> (v: Vec<RGBA>)
    ensures
        v@.len() == n,
        forall|i: int| 0 <= i < n ==> v@[i] == c,
{
    let mut v: Vec<RGBA> = Vec::new();
    let mut k: usize = 0;
    while k < n
        invariant
            k <= n,
            v@.len() == k,
            forall|i: int| 0 <= i < k ==> v@[i] == c,
        decreases n - k,
    {
        v.push(c);
        k = k + 1;
    }
    v
}

/// A zeroed packed byte grid.
pub(crate) fn zero_bytes(n: usize) -> (v: Vec<u8>)
    ensures
        v@.len() == n,
        forall|i: int| 0 <= i < n ==> v@[i] == 0u8,
{
    let mut v: Vec<u8> = Vec::new();
    let mut k: usize = 0;
    while k < n
        invariant
            k <= n,
            v@.len() == k,
            forall|i: int| 0 <= i < k ==> v@[i] == 0u8,
        decreases n - k,
    {
        v.push(0u8);
        k = k + 1;
    }
    v
}

/// Validates a requested geometry and derives the full grid configuration.
/// Rejects a zero width, a degenerate bounding box, and a cell count above
/// [`MAX_CELLS`]; radius and flip convention are supplied by the caller.
pub(crate) fn derive_grid(
    width: usize,
    min_x: i64,
    min_y: i64,
    max_x: i64,
    max_y: i64,
    radius: u32,
    flip_y: bool,
) -> (r: Result<GridConfig, HeatMapError>)
    ensures
        width == 0 ==> r == Err::<GridConfig, HeatMapError>(HeatMapError::ZeroWidth),
        width != 0 && (max_x <= min_x || max_y <= min_y) ==> r == Err::<
            GridConfig,
            HeatMapError,
        >(HeatMapError::InvalidBounds),
        width != 0 && max_x > min_x && max_y > min_y && width * derived_height(
            width as int,
            min_x as int,
            max_x as int,
            min_y as int,
            max_y as int,
        ) > MAX_CELLS ==> r == Err::<GridConfig, HeatMapError>(HeatMapError::GridTooLarge),
        width != 0 && max_x > min_x && max_y > min_y && width * derived_height(
            width as int,
            min_x as int,
            max_x as int,
            min_y as int,
            max_y as int,
        ) <= MAX_CELLS ==> r == Ok::<GridConfig, HeatMapError>(
            GridConfig {
                size_x: width,
                size_y: derived_height(
                    width as int,
                    min_x as int,
                    max_x as int,
                    min_y as int,
                    max_y as int,
                ) as usize,
                min_x,
                max_x,
                min_y,
                radius,
                flip_y,
            },
        ),
        r matches Ok(g) ==> g.valid(),
{
    if width == 0 {
        return Err(HeatMapError::ZeroWidth);
    }
    if max_x <= min_x || max_y <= min_y {
        return Err(HeatMapError::InvalidBounds);
    }
    proof {
        lemma_derived_height_at_least_one(
            width as int,
            min_x as int,
            max_x as int,
            min_y as int,
            max_y as int,
        );
    }
    let ghost dh = derived_height(width as int, min_x as int, max_x as int, min_y as int, max_y as int);
    if width > MAX_CELLS {
        proof {
            assert(width * dh > MAX_CELLS) by (nonlinear_arith)
                requires
                    dh >= 1,
                    width > MAX_CELLS,
            ;
        }
        return Err(HeatMapError::GridTooLarge);
    }
    let span_x: i128 = max_x as i128 - min_x as i128;
    let span_y: i128 = max_y as i128 - min_y as i128;
    proof {
        assert(span_y * (width as int) <= 0x4000_0000_0000_0000_0000_0000
            && span_y * (width as int) >= 0) by (nonlinear_arith)
            requires
                1 <= span_y <= 0x2_0000_0000_0000_0000,
                1 <= width as int <= 0x1000_0000,
        ;
    }
    let num: i128 = span_y * (width as i128) + span_x - 1;
    let sy: i128 = floor_div_i128(num, span_x);
    proof {
        assert(sy == dh);
        assert((width as int) * sy <= 0x1000_0000_0000_0000_0000_0000_0000_0000
            && (width as int) * sy >= 0) by (nonlinear_arith)
            requires
                1 <= width as int <= 0x1000_0000,
                0 <= sy <= 0x8000_0000_0000_0000_0000_0000,
        ;
    }
    let cells128: i128 = (width as i128) * sy;
    if cells128 > MAX_CELLS as i128 {
        return Err(HeatMapError::GridTooLarge);
    }
    proof {
        assert(sy <= MAX_CELLS) by (nonlinear_arith)
            requires
                (width as int) * sy <= MAX_CELLS,
                width as int >= 1,
                sy >= 1,
        ;
    }
    let size_y: usize = sy as usize;
    Ok(
        GridConfig {
            size_x: width,
            size_y,
            min_x,
            max_x,
            min_y,
            radius,
            flip_y,
        },
    )
}

/// A heatmap grid with the immediate ingestion protocol: each added point
/// splats into the density grid and triggers a full recolor. A queue of
/// pending points supports the batched protocol as well.
pub struct HeatMap {
    pub grid: GridConfig,
    pub max_heat: i64,
    pub gradient: Vec<RGBA>,
    pub heat_values: Vec<i64>,
    pub color_values: Vec<RGBA>,
    pub points: Vec<HeatPoint>,
}

impl HeatMap {
    /// Well-formedness: a fully configured geometry, a nonempty gradient,
    /// and both dense grids exactly `size_x * size_y` long.
    pub open spec fn wf(self) -> bool {
        &&& self.grid.valid()
        &&& self.gradient@.len() >= 1
        &&& self.heat_values@.len() == self.grid.cells()
        &&& self.color_values@.len() == self.grid.cells()
    }

    /// Configuration fields identical between two states.
    pub open spec fn same_config(self, other: Self) -> bool {
        &&& self.grid == other.grid
        &&& self.max_heat == other.max_heat
        &&& self.gradient == other.gradient
    }

    /// Builds a zeroed heatmap grid from a requested geometry, with the
    /// default two-stop gradient. Rejects a zero `width`, a degenerate
    /// bounding box, and a geometry of more than [`MAX_CELLS`] cells,
    /// leaving no state behind. Rows flip by default: row zero is at
    /// `max_y`.
    pub fn new(
        width: usize,
        radius: u32,
        min_x: i64,
        min_y: i64,
        max_x: i64,
        max_y: i64,
        max_heat: i64,
    ) -> (r: Result<HeatMap, HeatMapError>)
        ensures
            width == 0 ==> r == Err::<HeatMap, HeatMapError>(HeatMapError::ZeroWidth),
            width != 0 && (max_x <= min_x || max_y <= min_y) ==> r == Err::<
                HeatMap,
                HeatMapError,
            >(HeatMapError::InvalidBounds),
            width != 0 && max_x > min_x && max_y > min_y && width * derived_height(
                width as int,
                min_x as int,
                max_x as int,
                min_y as int,
                max_y as int,
            ) > MAX_CELLS ==> r == Err::<HeatMap, HeatMapError>(HeatMapError::GridTooLarge),
            width != 0 && max_x > min_x && max_y > min_y && width * derived_height(
                width as int,
                min_x as int,
                max_x as int,
                min_y as int,
                max_y as int,
            ) <= MAX_CELLS ==> (r matches Ok(hm) && {
                &&& hm.wf()
                &&& hm.grid == (GridConfig {
                    size_x: width,
                    size_y: derived_height(
                        width as int,
                        min_x as int,
                        max_x as int,
                        min_y as int,
                        max_y as int,
                    ) as usize,
                    min_x,
                    max_x,
                    min_y,
                    radius,
                    flip_y: true,
                })
                &&& hm.max_heat == max_heat
                &&& hm.gradient@.len() == 2
                &&& hm.gradient@[0] == (RGBA { r: 255, g: 255, b: 255, a: 255 })
                &&& hm.gradient@[1] == (RGBA { r: 0, g: 0, b: 0, a: 255 })
                &&& forall|i: int|
                    0 <= i < hm.heat_values@.len() ==> hm.heat_values@[i] == 0i64
                &&& forall|i: int|
                    0 <= i < hm.color_values@.len() ==> hm.color_values@[i] == (RGBA {
                        r: 0,
                        g: 0,
                        b: 0,
                        a: 0,
                    })
                &&& hm.points@.len() == 0
            }),
    {
        let grid = match derive_grid(width, min_x, min_y, max_x, max_y, radius, true) {
            Ok(g) => g,
            Err(e) => {
                return Err(e);
            },
        };
        let cells: usize = grid.size_x * grid.size_y;
        let heat_values = zero_grid(cells);
        let color_values = fill_colors(cells, RGBA { r: 0, g: 0, b: 0, a: 0 });
        Ok(
            HeatMap {
                grid,
                max_heat,
                gradient: default_gradients(),
                heat_values,
                color_values,
                points: Vec::new(),
            },
        )
    }

    /// Splats one point and recomputes the whole color grid.
    pub fn add_one_point(&mut self, x: i64, y: i64, value: i64)
        requires
            old(self).wf(),
        ensures
            final(self).wf(),
            old(self).same_config(*final(self)),
            final(self).points == old(self).points,
            final(self).heat_values@ == splat_target(
                old(self).heat_values@,
                old(self).grid,
                HeatPoint { x, y, value },
            ),
            final(self).color_values@ == colors_of(
                final(self).heat_values@,
                old(self).gradient@,
                old(self).max_heat as int,
            ),
    {
        let p = HeatPoint { x, y, value };
        splat_point(&mut self.heat_values, &self.grid, &p);
        recolor(&mut self.color_values, &self.heat_values, &self.gradient, self.max_heat);
    }

    /// Splats each structured point in order, then recolors once.
    pub fn add_points(&mut self, points: Vec<HeatPoint>)
        requires
            old(self).wf(),
        ensures
            final(self).wf(),
            old(self).same_config(*final(self)),
            final(self).points == old(self).points,
            final(self).heat_values@ == splat_all(
                old(self).heat_values@,
                old(self).grid,
                points@,
            ),
            final(self).color_values@ == colors_of(
                final(self).heat_values@,
                old(self).gradient@,
                old(self).max_heat as int,
            ),
    {
        let n: usize = points.len();
        let mut k: usize = 0;
        while k < n
            invariant
                self.wf(),
                old(self).same_config(*self),
                self.points == old(self).points,
                self.color_values == old(self).color_values,
                n == points@.len(),
                k <= n,
                self.heat_values@ == splat_all(
                    old(self).heat_values@,
                    old(self).grid,
                    points@.take(k as int),
                ),
            decreases n - k,
        {
            let p = points[k];
            splat_point(&mut self.heat_values, &self.grid, &p);
            proof {
                assert(points@.take(k + 1 as int).drop_last() =~= points@.take(k as int));
                assert(points@.take(k + 1 as int).last() == points@[k as int]);
            }
            k = k + 1;
        }
        proof {
            assert(points@.take(n as int) =~= points@);
        }
        recolor(&mut self.color_values, &self.heat_values, &self.gradient, self.max_heat);
    }

    /// Splats the points of a flat `x, y, value` triple sequence in order,
    /// then recolors once. A sequence whose length is not a multiple of
    /// three is rejected before any mutation.
    pub fn add_points_v2(&mut self, data: Vec<i64>) -> (r: Result<(), HeatMapError>)
        requires
            old(self).wf(),
        ensures
            data@.len() % 3 != 0 ==> r == Err::<(), HeatMapError>(HeatMapError::TripleLength)
                && *final(self) == *old(self),
            data@.len() % 3 == 0 ==> r == Ok::<(), HeatMapError>(()) && {
                &&& final(self).wf()
                &&& old(self).same_config(*final(self))
                &&& final(self).points == old(self).points
                &&& final(self).heat_values@ == splat_all(
                    old(self).heat_values@,
                    old(self).grid,
                    point_triples(data@),
                )
                &&& final(self).color_values@ == colors_of(
                    final(self).heat_values@,
                    old(self).gradient@,
                    old(self).max_heat as int,
                )
            },
    {
        if data.len() % 3 != 0 {
            return Err(HeatMapError::TripleLength);
        }
        let count: usize = data.len() / 3;
        proof {
            vstd::arithmetic::div_mod::lemma_fundamental_div_mod(data@.len() as int, 3);
        }
        let ghost pts = point_triples(data@);
        let mut k: usize = 0;
        while k < count
            invariant
                self.wf(),
                old(self).same_config(*self),
                self.points == old(self).points,
                self.color_values == old(self).color_values,
                data@.len() % 3 == 0,
                count == data@.len() / 3,
                3 * count == data@.len(),
                data@.len() <= usize::MAX,
                pts == point_triples(data@),
                k <= count,
                self.heat_values@ == splat_all(
                    old(self).heat_values@,
                    old(self).grid,
                    pts.take(k as int),
                ),
            decreases count - k,
        {
            let x = data[3 * k];
            let y = data[3 * k + 1];
            let value = data[3 * k + 2];
            let p = HeatPoint { x, y, value };
            proof {
                assert(pts[k as int] == p);
            }
            splat_point(&mut self.heat_values, &self.grid, &p);
            proof {
                assert(pts.take(k + 1 as int).drop_last() =~= pts.take(k as int));
                assert(pts.take(k + 1 as int).last() == pts[k as int]);
            }
            k = k + 1;
        }
        proof {
            assert(pts.take(count as int) =~= pts);
        }
        recolor(&mut self.color_values, &self.heat_values, &self.gradient, self.max_heat);
        Ok(())
    }

    /// Appends the points of a flat triple sequence to the pending queue
    /// without touching the grids. A sequence whose length is not a
    /// multiple of three is rejected before any mutation.
    pub fn add_points_v3(&mut self, data: Vec<i64>) -> (r: Result<(), HeatMapError>)
        requires
            old(self).wf(),
        ensures
            data@.len() % 3 != 0 ==> r == Err::<(), HeatMapError>(HeatMapError::TripleLength)
                && *final(self) == *old(self),
            data@.len() % 3 == 0 ==> r == Ok::<(), HeatMapError>(()) && {
                &&& final(self).wf()
                &&& old(self).same_config(*final(self))
                &&& final(self).heat_values == old(self).heat_values
                &&& final(self).color_values == old(self).color_values
                &&& final(self).points@ == old(self).points@ + point_triples(data@)
            },
    {
        if data.len() % 3 != 0 {
            return Err(HeatMapError::TripleLength);
        }
        let count: usize = data.len() / 3;
        proof {
            vstd::arithmetic::div_mod::lemma_fundamental_div_mod(data@.len() as int, 3);
        }
        let ghost pts = point_triples(data@);
        let mut k: usize = 0;
        while k < count
            invariant
                self.wf(),
                old(self).same_config(*self),
                self.heat_values == old(self).heat_values,
                self.color_values == old(self).color_values,
                data@.len() % 3 == 0,
                count == data@.len() / 3,
                3 * count == data@.len(),
                data@.len() <= usize::MAX,
                pts == point_triples(data@),
                k <= count,
                self.points@ == old(self).points@ + pts.take(k as int),
            decreases count - k,
        {
            let x = data[3 * k];
            let y = data[3 * k + 1];
            let value = data[3 * k + 2];
            self.points.push(HeatPoint { x, y, value });
            proof {
                assert(self.points@ =~= old(self).points@ + pts.take(k + 1 as int));
            }
            k = k + 1;
        }
        proof {
            assert(old(self).points@ + pts.take(count as int) =~= old(self).points@ + pts);
        }
        Ok(())
    }

    /// The batched accumulation pass: splats every queued point in order.
    /// The queue itself is kept as it is.
    pub fn tag1(&mut self)
        requires
            old(self).wf(),
        ensures
            final(self).wf(),
            old(self).same_config(*final(self)),
            final(self).points == old(self).points,
            final(self).color_values == old(self).color_values,
            final(self).heat_values@ == splat_all(
                old(self).heat_values@,
                old(self).grid,
                old(self).points@,
            ),
    {
        let n: usize = self.points.len();
        let mut k: usize = 0;
        while k < n
            invariant
                self.wf(),
                old(self).same_config(*self),
                self.points == old(self).points,
                self.color_values == old(self).color_values,
                n == self.points@.len(),
                k <= n,
                self.heat_values@ == splat_all(
                    old(self).heat_values@,
                    old(self).grid,
                    self.points@.take(k as int),
                ),
            decreases n - k,
        {
            let p = self.points[k];
            splat_point(&mut self.heat_values, &self.grid, &p);
            proof {
                assert(self.points@.take(k + 1 as int).drop_last() =~= self.points@.take(
                    k as int,
                ));
                assert(self.points@.take(k + 1 as int).last() == self.points@[k as int]);
            }
            k = k + 1;
        }
        proof {
            assert(self.points@.take(n as int) =~= self.points@);
        }
    }

    /// The recolor pass: recomputes the whole color grid from the current
    /// density grid, gradient, and ceiling.
    pub fn tag2(&mut self)
        requires
            old(self).wf(),
        ensures
            final(self).wf(),
            old(self).same_config(*final(self)),
            final(self).points == old(self).points,
            final(self).heat_values == old(self).heat_values,
            final(self).color_values@ == colors_of(
                old(self).heat_values@,
                old(self).gradient@,
                old(self).max_heat as int,
            ),
    {
        recolor(&mut self.color_values, &self.heat_values, &self.gradient, self.max_heat);
    }

    /// The batched compute call: one accumulation pass over the queue, then
    /// exactly one full recolor.
    pub fn calc_heatmap(&mut self)
        requires
            old(self).wf(),
        ensures
            final(self).wf(),
            old(self).same_config(*final(self)),
            final(self).points == old(self).points,
            final(self).heat_values@ == splat_all(
                old(self).heat_values@,
                old(self).grid,
                old(self).points@,
            ),
            final(self).color_values@ == colors_of(
                final(self).heat_values@,
                old(self).gradient@,
                old(self).max_heat as int,
            ),
    {
        self.tag1();
        self.tag2();
    }

    /// Replaces the gradient ramp. An empty stop list is rejected with the
    /// state unchanged; the color grid is not recomputed until the next
    /// recolor.
    pub fn set_gradients(&mut self, gradient: Vec<RGBA>) -> (r: Result<(), HeatMapError>)
        requires
            old(self).wf(),
        ensures
            gradient@.len() == 0 ==> r == Err::<(), HeatMapError>(HeatMapError::EmptyGradient)
                && *final(self) == *old(self),
            gradient@.len() >= 1 ==> r == Ok::<(), HeatMapError>(()) && *final(self) == (
            HeatMap { gradient, ..*old(self) }),
            final(self).wf(),
    {
        if gradient.len() == 0 {
            return Err(HeatMapError::EmptyGradient);
        }
        self.gradient = gradient;
        Ok(())
    }

    /// Replaces the normalization ceiling; only the next recolor sees it.
    pub fn set_max_heat(&mut self, max_heat: i64)
        requires
            old(self).wf(),
        ensures
            final(self).wf(),
            *final(self) == (HeatMap { max_heat, ..*old(self) }),
    {
        self.max_heat = max_heat;
    }

    /// Replaces the kernel radius. Densities already accumulated keep the
    /// old geometry; callers who need a replay must reset and resplat.
    pub fn set_radius(&mut self, radius: u32)
        requires
            old(self).wf(),
        ensures
            final(self).wf(),
            *final(self) == (HeatMap {
                grid: GridConfig { radius, ..old(self).grid },
                ..*old(self)
            }),
    {
        self.grid.radius = radius;
    }

    /// Replaces the vertical-flip convention. Densities already accumulated
    /// keep the old geometry.
    pub fn set_flip_y(&mut self, flip_y: bool)
        requires
            old(self).wf(),
        ensures
            final(self).wf(),
            *final(self) == (HeatMap {
                grid: GridConfig { flip_y, ..old(self).grid },
                ..*old(self)
            }),
    {
        self.grid.flip_y = flip_y;
    }

    /// The grid width in cells.
    pub fn width(&self) -> (w: usize)
        ensures
            w == self.grid.size_x,
    {
        self.grid.size_x
    }

    /// The grid height in cells.
    pub fn height(&self) -> (h: usize)
        ensures
            h == self.grid.size_y,
    {
        self.grid.size_y
    }

    /// The accumulated density at cell `(row, col)`, or an out-of-bounds
    /// error for a cell outside the grid.
    pub fn heat_value(&self, row: usize, col: usize) -> (r: Result<i64, HeatMapError>)
        requires
            self.wf(),
        ensures
            row < self.grid.size_y && col < self.grid.size_x ==> r == Ok::<i64, HeatMapError>(
                self.heat_values@[self.grid.index_of(row as int, col as int)],
            ),
            !(row < self.grid.size_y && col < self.grid.size_x) ==> r == Err::<
                i64,
                HeatMapError,
            >(HeatMapError::OutOfBounds),
    {
        if row < self.grid.size_y && col < self.grid.size_x {
            proof {
                lemma_index_bijection(self.grid, row as int, col as int);
            }
            Ok(self.heat_values[row * self.grid.size_x + col])
        } else {
            Err(HeatMapError::OutOfBounds)
        }
    }

    /// Zeroes the density grid in place. The color grid intentionally keeps
    /// its last computed contents until the next explicit recolor.
    pub fn reset(&mut self)
        requires
            old(self).wf(),
        ensures
            final(self).wf(),
            old(self).same_config(*final(self)),
            final(self).points == old(self).points,
            final(self).color_values == old(self).color_values,
            final(self).heat_values@.len() == old(self).heat_values@.len(),
            forall|i: int|
                0 <= i < final(self).heat_values@.len() ==> final(self).heat_values@[i] == 0i64,
    {
        let n: usize = self.heat_values.len();
        let mut k: usize = 0;
        while k < n
            invariant
                self.wf(),
                old(self).same_config(*self),
                self.points == old(self).points,
                self.color_values == old(self).color_values,
                n == self.heat_values@.len(),
                self.heat_values@.len() == old(self).heat_values@.len(),
                k <= n,
                forall|i: int| 0 <= i < k ==> self.heat_values@[i] == 0i64,
            decreases n - k,
        {
            self.heat_values.set(k, 0i64);
            k = k + 1;
        }
    }

    /// The color at cell `(row, col)`, or an out-of-bounds error for a cell
    /// outside the grid.
    pub fn color_value(&self, row: usize, col: usize) -> (r: Result<RGBA, HeatMapError>)
        requires
            self.wf(),
        ensures
            row < self.grid.size_y && col < self.grid.size_x ==> r == Ok::<RGBA, HeatMapError>(
                self.color_values@[self.grid.index_of(row as int, col as int)],
            ),
            !(row < self.grid.size_y && col < self.grid.size_x) ==> r == Err::<
                RGBA,
                HeatMapError,
            >(HeatMapError::OutOfBounds),
    {
        if row < self.grid.size_y && col < self.grid.size_x {
            proof {
                lemma_index_bijection(self.grid, row as int, col as int);
            }
            Ok(self.color_values[row * self.grid.size_x + col])
        } else {
            Err(HeatMapError::OutOfBounds)
        }
    }

    /// Borrows the whole structured color grid, valid until the next
    /// mutating call.
    pub fn color_values(&self) -> (r: &Vec<RGBA>)
        ensures
            r@ == self.color_values@,
    {
        &self.color_values
    }
}

} // verus!
