//! The batched heatmap variant: points are only queued until an explicit
//! compute call, geometry is configured after construction, and the color
//! grid is kept in packed interleaved `r, g, b, a` byte layout.

use vstd::prelude::*;
use crate::{HeatMapError, HeatPoint, MAX_CELLS, point_triples};
use crate::rgba::{RGBA, default_gradients};
use crate::mapper::GridConfig;
use crate::kernel::{splat_all, splat_point};
use crate::color::{packed_colors_of, recolor_packed};
use crate::heatmap::{derive_grid, derived_height, zero_grid, zero_bytes};

verus! {

/// A heatmap grid with the batched ingestion protocol and a packed byte
/// color grid. Until [`HeatMapV2::set_size`] configures the geometry, the
/// grids are empty and every splat lands outside them.
pub struct HeatMapV2 {
    pub grid: GridConfig,
    pub max_heat: i64,
    pub gradient: Vec<RGBA>,
    pub heat_values: Vec<i64>,
    pub color_values: Vec<u8>,
    pub points: Vec<HeatPoint>,
}

impl HeatMapV2 {
    /// Well-formedness: a configured or still-empty geometry, a nonempty
    /// gradient, the density grid `size_x * size_y` long, and the packed
    /// color grid four bytes per cell.
    pub open spec fn wf(self) -> bool {
        &&& self.grid.valid() || self.grid.unconfigured()
        &&& self.gradient@.len() >= 1
        &&& self.heat_values@.len() == self.grid.cells()
        &&& self.color_values@.len() == 4 * self.grid.cells()
    }

    /// Configuration fields identical between two states.
    pub open spec fn same_config(self, other: Self) -> bool {
        &&& self.grid == other.grid
        &&& self.max_heat == other.max_heat
        &&& self.gradient == other.gradient
    }

    /// An unconfigured grid with the default gradient, a zero ceiling, the
    /// flipped row convention, and no cells.
    pub fn new() -> (hm: HeatMapV2)
        ensures
            hm.wf(),
            hm.grid == (GridConfig {
                size_x: 0,
                size_y: 0,
                min_x: 0i64,
                max_x: 0i64,
                min_y: 0i64,
                radius: 0u32,
                flip_y: true,
            }),
            hm.max_heat == 0,
            hm.gradient@.len() == 2,
            hm.gradient@[0] == (RGBA { r: 255, g: 255, b: 255, a: 255 }),
            hm.gradient@[1] == (RGBA { r: 0, g: 0, b: 0, a: 255 }),
            hm.heat_values@.len() == 0,
            hm.color_values@.len() == 0,
            hm.points@.len() == 0,
    {
        HeatMapV2 {
            grid: GridConfig {
                size_x: 0,
                size_y: 0,
                min_x: 0,
                max_x: 0,
                min_y: 0,
                radius: 0,
                flip_y: true,
            },
            max_heat: 0,
            gradient: default_gradients(),
            heat_values: Vec::new(),
            color_values: Vec::new(),
            points: Vec::new(),
        }
    }

    /// Appends the points of a flat `x, y, value` triple sequence to the
    /// pending queue without touching the grids. A sequence whose length
    /// is not a multiple of three is rejected before any mutation.
    pub fn add_points(&mut self, data: Vec<i64>) -> (r: Result<(), HeatMapError>)
        requires
            old(self).wf(),
        ensures
            data@.len() % 3 != 0 ==> r == Err::<(), HeatMapError>(HeatMapError::TripleLength)
                && *final(self) == *old(self),
            data@.len() % 3 == 0 ==> r == Ok::<(), HeatMapError>(()) && {
                &&& final(self).wf()
                &&& old(self).same_config(*final(self))
                &&& final(self).heat_values == old(self).heat_values
                &&& final(self).color_values == old(self).color_values
                &&& final(self).points@ == old(self).points@ + point_triples(data@)
            },
    {
        if data.len() % 3 != 0 {
            return Err(HeatMapError::TripleLength);
        }
        let count: usize = data.len() / 3;
        proof {
            vstd::arithmetic::div_mod::lemma_fundamental_div_mod(data@.len() as int, 3);
        }
        let ghost pts = point_triples(data@);
        let mut k: usize = 0;
        while k < count
            invariant
                self.wf(),
                old(self).same_config(*self),
                self.heat_values == old(self).heat_values,
                self.color_values == old(self).color_values,
                data@.len() % 3 == 0,
                count == data@.len() / 3,
                3 * count == data@.len(),
                data@.len() <= usize::MAX,
                pts == point_triples(data@),
                k <= count,
                self.points@ == old(self).points@ + pts.take(k as int),
            decreases count - k,
        {
            let x = data[3 * k];
            let y = data[3 * k + 1];
            let value = data[3 * k + 2];
            self.points.push(HeatPoint { x, y, value });
            proof {
                assert(self.points@ =~= old(self).points@ + pts.take(k + 1 as int));
            }
            k = k + 1;
        }
        proof {
            assert(old(self).points@ + pts.take(count as int) =~= old(self).points@ + pts);
        }
        Ok(())
    }

    /// The batched accumulation pass: splats every queued point in order.
    /// The queue itself is kept as it is.
    pub fn tag1(&mut self)
        requires
            old(self).wf(),
        ensures
            final(self).wf(),
            old(self).same_config(*final(self)),
            final(self).points == old(self).points,
            final(self).color_values == old(self).color_values,
            final(self).heat_values@ == splat_all(
                old(self).heat_values@,
                old(self).grid,
                old(self).points@,
            ),
    {
        let n: usize = self.points.len();
        let mut k: usize = 0;
        while k < n
            invariant
                self.wf(),
                old(self).same_config(*self),
                self.points == old(self).points,
                self.color_values == old(self).color_values,
                n == self.points@.len(),
                k <= n,
                self.heat_values@ == splat_all(
                    old(self).heat_values@,
                    old(self).grid,
                    self.points@.take(k as int),
                ),
            decreases n - k,
        {
            let p = self.points[k];
            splat_point(&mut self.heat_values, &self.grid, &p);
            proof {
                assert(self.points@.take(k + 1 as int).drop_last() =~= self.points@.take(
                    k as int,
                ));
                assert(self.points@.take(k + 1 as int).last() == self.points@[k as int]);
            }
            k = k + 1;
        }
        proof {
            assert(self.points@.take(n as int) =~= self.points@);
        }
    }

    /// The recolor pass: recomputes the whole packed color grid from the
    /// current density grid, gradient, and ceiling.
    pub fn tag2(&mut self)
        requires
            old(self).wf(),
        ensures
            final(self).wf(),
            old(self).same_config(*final(self)),
            final(self).points == old(self).points,
            final(self).heat_values == old(self).heat_values,
            final(self).color_values@ == packed_colors_of(
                old(self).heat_values@,
                old(self).gradient@,
                old(self).max_heat as int,
            ),
    {
        recolor_packed(&mut self.color_values, &self.heat_values, &self.gradient, self.max_heat);
    }

    /// The batched compute call: one accumulation pass over the queue, then
    /// exactly one full recolor.
    pub fn calc_heatmap(&mut self)
        requires
            old(self).wf(),
        ensures
            final(self).wf(),
            old(self).same_config(*final(self)),
            final(self).points == old(self).points,
            final(self).heat_values@ == splat_all(
                old(self).heat_values@,
                old(self).grid,
                old(self).points@,
            ),
            final(self).color_values@ == packed_colors_of(
                final(self).heat_values@,
                old(self).gradient@,
                old(self).max_heat as int,
            ),
    {
        self.tag1();
        self.tag2();
    }

    /// The grid width in cells.
    pub fn width(&self) -> (w: usize)
        ensures
            w == self.grid.size_x,
    {
        self.grid.size_x
    }

    /// The grid height in cells.
    pub fn height(&self) -> (h: usize)
        ensures
            h == self.grid.size_y,
    {
        self.grid.size_y
    }

    /// Replaces the gradient ramp. An empty stop list is rejected with the
    /// state unchanged.
    pub fn set_gradients(&mut self, gradient: Vec<RGBA>) -> (r: Result<(), HeatMapError>)
        requires
            old(self).wf(),
        ensures
            gradient@.len() == 0 ==> r == Err::<(), HeatMapError>(HeatMapError::EmptyGradient)
                && *final(self) == *old(self),
            gradient@.len() >= 1 ==> r == Ok::<(), HeatMapError>(()) && *final(self) == (
            HeatMapV2 { gradient, ..*old(self) }),
            final(self).wf(),
    {
        if gradient.len() == 0 {
            return Err(HeatMapError::EmptyGradient);
        }
        self.gradient = gradient;
        Ok(())
    }

    /// Replaces the normalization ceiling; only the next recolor sees it.
    pub fn set_max_heat(&mut self, max_heat: i64)
        requires
            old(self).wf(),
        ensures
            final(self).wf(),
            *final(self) == (HeatMapV2 { max_heat, ..*old(self) }),
    {
        self.max_heat = max_heat;
    }

    /// Replaces the kernel radius. Densities already accumulated keep the
    /// old geometry.
    pub fn set_radius(&mut self, radius: u32)
        requires
            old(self).wf(),
        ensures
            final(self).wf(),
            *final(self) == (HeatMapV2 {
                grid: GridConfig { radius, ..old(self).grid },
                ..*old(self)
            }),
    {
        self.grid.radius = radius;
    }

    /// Replaces the vertical-flip convention. Densities already accumulated
    /// keep the old geometry.
    pub fn set_flip_y(&mut self, flip_y: bool)
        requires
            old(self).wf(),
        ensures
            final(self).wf(),
            *final(self) == (HeatMapV2 {
                grid: GridConfig { flip_y, ..old(self).grid },
                ..*old(self)
            }),
    {
        self.grid.flip_y = flip_y;
    }

    /// Configures the geometry and zeroes both grids to the new size.
    /// Rejects a zero width, a degenerate bounding box, and a cell count
    /// above [`MAX_CELLS`], leaving the state unchanged. The radius, flip
    /// convention, gradient, ceiling, and pending queue are kept.
    pub fn set_size(
        &mut self,
        size_x: usize,
        min_x: i64,
        min_y: i64,
        max_x: i64,
        max_y: i64,
    ) -> (r: Result<(), HeatMapError>)
        requires
            old(self).wf(),
        ensures
            size_x == 0 ==> r == Err::<(), HeatMapError>(HeatMapError::ZeroWidth)
                && *final(self) == *old(self),
            size_x != 0 && (max_x <= min_x || max_y <= min_y) ==> r == Err::<
                (),
                HeatMapError,
            >(HeatMapError::InvalidBounds) && *final(self) == *old(self),
            size_x != 0 && max_x > min_x && max_y > min_y && size_x * derived_height(
                size_x as int,
                min_x as int,
                max_x as int,
                min_y as int,
                max_y as int,
            ) > MAX_CELLS ==> r == Err::<(), HeatMapError>(HeatMapError::GridTooLarge)
                && *final(self) == *old(self),
            size_x != 0 && max_x > min_x && max_y > min_y && size_x * derived_height(
                size_x as int,
                min_x as int,
                max_x as int,
                min_y as int,
                max_y as int,
            ) <= MAX_CELLS ==> r == Ok::<(), HeatMapError>(()) && {
                &&& final(self).wf()
                &&& final(self).grid == (GridConfig {
                    size_x,
                    size_y: derived_height(
                        size_x as int,
                        min_x as int,
                        max_x as int,
                        min_y as int,
                        max_y as int,
                    ) as usize,
                    min_x,
                    max_x,
                    min_y,
                    radius: old(self).grid.radius,
                    flip_y: old(self).grid.flip_y,
                })
                &&& final(self).max_heat == old(self).max_heat
                &&& final(self).gradient == old(self).gradient
                &&& final(self).points == old(self).points
                &&& forall|i: int|
                    0 <= i < final(self).heat_values@.len() ==> final(self).heat_values@[i]
                        == 0i64
                &&& forall|i: int|
                    0 <= i < final(self).color_values@.len() ==> final(self).color_values@[i]
                        == 0u8
            },
    {
        let grid = match derive_grid(
            size_x,
            min_x,
            min_y,
            max_x,
            max_y,
            self.grid.radius,
            self.grid.flip_y,
        ) {
            Ok(g) => g,
            Err(e) => {
                return Err(e);
            },
        };
        let cells: usize = grid.size_x * grid.size_y;
        self.grid = grid;
        self.heat_values = zero_grid(cells);
        self.color_values = zero_bytes(4 * cells);
        Ok(())
    }

    /// Zeroes the density grid in place. The packed color grid keeps its
    /// last computed contents until the next explicit recolor.
    pub fn reset(&mut self)
        requires
            old(self).wf(),
        ensures
            final(self).wf(),
            old(self).same_config(*final(self)),
            final(self).points == old(self).points,
            final(self).color_values == old(self).color_values,
            final(self).heat_values@.len() == old(self).heat_values@.len(),
            forall|i: int|
                0 <= i < final(self).heat_values@.len() ==> final(self).heat_values@[i] == 0i64,
    {
        let n: usize = self.heat_values.len();
        let mut k: usize = 0;
        while k < n
            invariant
                self.wf(),
                old(self).same_config(*self),
                self.points == old(self).points,
                self.color_values == old(self).color_values,
                n == self.heat_values@.len(),
                self.heat_values@.len() == old(self).heat_values@.len(),
                k <= n,
                forall|i: int| 0 <= i < k ==> self.heat_values@[i] == 0i64,
            decreases n - k,
        {
            self.heat_values.set(k, 0i64);
            k = k + 1;
        }
    }

    /// Borrows the whole packed color grid, valid until the next mutating
    /// call.
    pub fn color_values(&self) -> (r: &Vec<u8>)
        ensures
            r@ == self.color_values@,
    {
        &self.color_values
    }
}

} // verus!
