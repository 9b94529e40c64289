//! The radial falloff kernel: splatting a weighted point into the
//! neighborhood of grid cells around its center cell.

use vstd::prelude::*;
use vstd::arithmetic::div_mod::lemma_fundamental_div_mod_converse;
use crate::arith::{sat_add, sat_add_i64, sqrt_floor, isqrt_u128, lemma_sqrt_floor_bounds};
use crate::mapper::{GridConfig, lemma_index_bijection, lemma_index_decomposition};
use crate::mapper::{col_center_x, row_center_y};
use crate::{HeatPoint, FP_SCALE};

verus! {

/// Kernel weight at squared cell distance `s` for the given radius, as a
/// fixed-point fraction of [`FP_SCALE`]: `1 - sqrt(s) / radius`, rounded
/// down. A radius of zero admits only the center cell, which gets the full
/// weight.
pub open spec fn weight_fp(s: int, radius: int) -> int {
    if radius <= 0 {
        FP_SCALE as int
    } else {
        FP_SCALE - sqrt_floor((s * FP_SCALE * FP_SCALE) as nat) as int / radius
    }
}

/// A point value scaled by a fixed-point kernel weight:
/// `v * w / FP_SCALE`, truncated toward zero.
pub open spec fn scaled_value(v: int, w: int) -> int {
    if v >= 0 {
        v * w / (FP_SCALE as int)
    } else {
        -((-v) * w / (FP_SCALE as int))
    }
}

/// Squared distance, in cell units, between cell `(row, col)` and the
/// center cell of point `p`.
pub open spec fn sq_cell_dist(g: GridConfig, p: HeatPoint, row: int, col: int) -> int {
    let dx = col - g.col_center(p.x as int);
    let dy = row - g.row_center(p.y as int);
    dx * dx + dy * dy
}

/// The contribution point `p` makes to cell `(row, col)`: zero outside the
/// square of side `2 * radius + 1` around the point's center cell and zero
/// beyond the inscribed circle; otherwise the weighted value.
pub open spec fn cell_contrib(g: GridConfig, p: HeatPoint, row: int, col: int) -> int {
    let dx = col - g.col_center(p.x as int);
    let dy = row - g.row_center(p.y as int);
    let rad = g.radius as int;
    if -rad <= dx <= rad && -rad <= dy <= rad {
        if dx * dx + dy * dy <= rad * rad {
            scaled_value(p.value as int, weight_fp(dx * dx + dy * dy, rad))
        } else {
            0
        }
    } else {
        0
    }
}

/// The density grid after splatting one point: every cell saturating-adds
/// its contribution.
pub open spec fn splat_target(h: Seq<i64>, g: GridConfig, p: HeatPoint) -> Seq<i64> {
    Seq::new(
        h.len(),
        |i: int|
            sat_add(
                h[i] as int,
                cell_contrib(g, p, g.row_of_index(i), g.col_of_index(i)),
            ) as i64,
    )
}

/// The density grid after splatting a sequence of points in order.
pub open spec fn splat_all(h: Seq<i64>, g: GridConfig, pts: Seq<HeatPoint>) -> Seq<i64>
    decreases pts.len(),
{
    if pts.len() == 0 {
        h
    } else {
        splat_target(splat_all(h, g, pts.drop_last()), g, pts.last())
    }
}

/// Splatting touches only cells within circular distance `radius` (in cell
/// units) of the point's center cell: every cell strictly beyond that
/// distance keeps its old density exactly.
pub proof fn lemma_splat_only_within_radius(
    h: Seq<i64>,
    g: GridConfig,
    p: HeatPoint,
    row: int,
    col: int,
)
    requires
        g.valid(),
        h.len() == g.cells(),
        0 <= row < g.size_y,
        0 <= col < g.size_x,
        sq_cell_dist(g, p, row, col) > (g.radius as int) * (g.radius as int),
    ensures
        splat_target(h, g, p)[g.index_of(row, col)] == h[g.index_of(row, col)],
{
    lemma_index_bijection(g, row, col);
    let i = g.index_of(row, col);
    assert(cell_contrib(g, p, row, col) == 0);
    assert(splat_target(h, g, p)[i] == sat_add(h[i] as int, 0) as i64);
}

/// A point whose center cell lies in the grid contributes exactly its full
/// value there: the kernel weight at cell distance zero is `1.0` for every
/// radius. Stated for sums that stay in range of the saturating addition.
pub proof fn lemma_center_cell_full_value(h: Seq<i64>, g: GridConfig, p: HeatPoint)
    requires
        g.valid(),
        h.len() == g.cells(),
        0 <= g.row_center(p.y as int) < g.size_y,
        0 <= g.col_center(p.x as int) < g.size_x,
        i64::MIN <= h[g.index_of(g.row_center(p.y as int), g.col_center(p.x as int))]
            + p.value <= i64::MAX,
    ensures
        splat_target(h, g, p)[g.index_of(g.row_center(p.y as int), g.col_center(p.x as int))]
            == h[g.index_of(g.row_center(p.y as int), g.col_center(p.x as int))] + p.value,
{
    let rc = g.row_center(p.y as int);
    let cc = g.col_center(p.x as int);
    lemma_index_bijection(g, rc, cc);
    let i = g.index_of(rc, cc);
    let rad = g.radius as int;
    assert(rad * rad >= 0) by (nonlinear_arith)
        requires
            rad >= 0,
    ;
    if rad >= 1 {
        assert(sqrt_floor((0 * FP_SCALE * FP_SCALE) as nat) == 0);
        lemma_fundamental_div_mod_converse(0, rad, 0, 0);
    }
    assert(weight_fp(0, rad) == FP_SCALE as int);
    if p.value >= 0 {
        lemma_fundamental_div_mod_converse(
            (p.value as int) * (FP_SCALE as int),
            FP_SCALE as int,
            p.value as int,
            0,
        );
    } else {
        lemma_fundamental_div_mod_converse(
            (-(p.value as int)) * (FP_SCALE as int),
            FP_SCALE as int,
            -(p.value as int),
            0,
        );
    }
    assert(scaled_value(p.value as int, FP_SCALE as int) == p.value as int);
    assert(cell_contrib(g, p, rc, cc) == p.value as int);
}

/// Cells that the current pass over offsets `(ox, oy)` has already visited:
/// those whose offset from the point's center cell lies in the kernel square
/// and strictly precedes `(dx, dy)` in column-major iteration order.
spec fn cell_done(g: GridConfig, p: HeatPoint, i: int, dx: int, dy: int) -> bool {
    let ox = g.col_of_index(i) - g.col_center(p.x as int);
    let oy = g.row_of_index(i) - g.row_center(p.y as int);
    let rad = g.radius as int;
    &&& -rad <= ox <= rad
    &&& -rad <= oy <= rad
    &&& (ox < dx || (ox == dx && oy < dy))
}

/// Kernel weight for a squared cell distance inside the circle.
fn weight_of(s2: i128, radius: u32) -> (w: u64)
    requires
        radius >= 1,
        0 <= s2 <= (radius as int) * (radius as int),
    ensures
        w as int == weight_fp(s2 as int, radius as int),
        w <= FP_SCALE as u64,
{
    proof {
        assert(s2 <= 0xffff_ffff_ffff_ffff) by (nonlinear_arith)
            requires
                s2 <= (radius as int) * (radius as int),
                radius <= 0xffff_ffff,
        ;
    }
    let t: u128 = isqrt_u128((s2 as u128) * 1_000_000);
    proof {
        lemma_sqrt_floor_bounds(((s2 as int) * 1_000_000) as nat);
        assert(t as int <= 1000 * (radius as int)) by (nonlinear_arith)
            requires
                (t as int) * (t as int) <= (s2 as int) * 1_000_000,
                s2 as int <= (radius as int) * (radius as int),
                radius >= 1,
                t >= 0,
        ;
        assert((t as int) / (radius as int) <= 1000) by (nonlinear_arith)
            requires
                t as int <= 1000 * (radius as int),
                radius >= 1,
                t >= 0,
        ;
    }
    let q: u128 = t / (radius as u128);
    1000u64 - (q as u64)
}

/// A point value scaled by a kernel weight, truncated toward zero.
fn scale_value(v: i64, w: u64) -> (c: i64)
    requires
        w <= FP_SCALE as u64,
    ensures
        c as int == scaled_value(v as int, w as int),
        v >= 0 ==> 0 <= c <= v,
        v < 0 ==> v <= c <= 0,
{
    if v >= 0 {
        proof {
            assert((v as int) * (w as int) <= 0x2000_0000_0000_0000_0000) by (nonlinear_arith)
                requires
                    0 <= v as int <= 0x8000_0000_0000_0000,
                    0 <= w <= 1000,
            ;
        }
        let prod: u128 = (v as u128) * (w as u128);
        let q: u128 = prod / 1000;
        proof {
            assert(q <= v as int) by (nonlinear_arith)
                requires
                    q == ((v as int) * (w as int)) / 1000,
                    0 <= w <= 1000,
                    v >= 0,
            ;
        }
        q as i64
    } else {
        let m: u128 = (-(v as i128)) as u128;
        proof {
            assert((m as int) * (w as int) <= 0x2000_0000_0000_0000_0000) by (nonlinear_arith)
                requires
                    0 <= m as int <= 0x8000_0000_0000_0000,
                    0 <= w <= 1000,
            ;
        }
        let prod: u128 = m * (w as u128);
        let q: u128 = prod / 1000;
        proof {
            assert(q <= m as int) by (nonlinear_arith)
                requires
                    q == ((m as int) * (w as int)) / 1000,
                    0 <= w <= 1000,
                    m >= 0,
            ;
        }
        (-(q as i128)) as i64
    }
}

/// Splats one weighted point into the density grid: each cell ends up as the
/// saturating sum of its old density and the point's contribution to it.
pub fn splat_point(heat: &mut Vec<i64>, g: &GridConfig, p: &HeatPoint)
    requires
        g.valid() || g.unconfigured(),
        old(heat)@.len() == g.cells(),
    ensures
        final(heat)@ == splat_target(old(heat)@, *g, *p),
{
    if g.size_x == 0 || g.size_y == 0 {
        proof {
            assert(g.cells() == 0) by (nonlinear_arith)
                requires
                    g.size_x == 0 || g.size_y == 0,
            ;
            assert(heat@ =~= splat_target(heat@, *g, *p));
        }
        return;
    }
    let ctr_row: i128 = row_center_y(g, p.y);
    let ctr_col: i128 = col_center_x(g, p.x);
    let rad: u32 = g.radius;
    let value: i64 = p.value;
    let ghost h0 = heat@;
    let ghost target = splat_target(h0, *g, *p);
    let mut dx: i64 = -(rad as i64);
    while dx <= rad as i64
        invariant
            g.valid(),
            rad == g.radius,
            value == p.value,
            ctr_row == g.row_center(p.y as int),
            ctr_col == g.col_center(p.x as int),
            -0x101_0000_0000_0000_0000_0000_0000 <= ctr_row <= 0x101_0000_0000_0000_0000_0000_0000,
            -0x101_0000_0000_0000_0000_0000_0000 <= ctr_col <= 0x101_0000_0000_0000_0000_0000_0000,
            -(rad as int) <= dx <= rad as int + 1,
            heat@.len() == h0.len(),
            h0.len() == g.cells(),
            target == splat_target(h0, *g, *p),
            forall|i: int|
                0 <= i < h0.len() ==> #[trigger] heat@[i] == (if cell_done(
                    *g,
                    *p,
                    i,
                    dx as int,
                    -(rad as int),
                ) {
                    target[i]
                } else {
                    h0[i]
                }),
        decreases rad as int + 1 - dx,
    {
        let mut dy: i64 = -(rad as i64);
        while dy <= rad as i64
            invariant
                g.valid(),
                rad == g.radius,
                value == p.value,
                ctr_row == g.row_center(p.y as int),
                ctr_col == g.col_center(p.x as int),
                -0x101_0000_0000_0000_0000_0000_0000 <= ctr_row
                    <= 0x101_0000_0000_0000_0000_0000_0000,
                -0x101_0000_0000_0000_0000_0000_0000 <= ctr_col
                    <= 0x101_0000_0000_0000_0000_0000_0000,
                -(rad as int) <= dx <= rad as int,
                -(rad as int) <= dy <= rad as int + 1,
                heat@.len() == h0.len(),
                h0.len() == g.cells(),
                target == splat_target(h0, *g, *p),
                forall|i: int|
                    0 <= i < h0.len() ==> #[trigger] heat@[i] == (if cell_done(
                        *g,
                        *p,
                        i,
                        dx as int,
                        dy as int,
                    ) {
                        target[i]
                    } else {
                        h0[i]
                    }),
            decreases rad as int + 1 - dy,
        {
            let nx: i128 = ctr_col + dx as i128;
            let ny: i128 = ctr_row + dy as i128;
            if 0 <= nx && nx < g.size_x as i128 && 0 <= ny && ny < g.size_y as i128 {
                let dxl: i128 = dx as i128;
                let dyl: i128 = dy as i128;
                proof {
                    assert(dxl * dxl + dyl * dyl <= 0x2_0000_0000_0000_0000
                        && dxl * dxl >= 0 && dyl * dyl >= 0) by (nonlinear_arith)
                        requires
                            -0x1_0000_0000 <= dxl <= 0x1_0000_0000,
                            -0x1_0000_0000 <= dyl <= 0x1_0000_0000,
                    ;
                    assert((rad as i128) * (rad as i128) <= 0xffff_ffff_ffff_ffff)
                        by (nonlinear_arith)
                        requires
                            0 <= rad <= 0xffff_ffff,
                    ;
                }
                let s2: i128 = dxl * dxl + dyl * dyl;
                let within = if rad == 0 {
                    true
                } else {
                    s2 <= (rad as i128) * (rad as i128)
                };
                if within {
                    let w: u64 = if rad == 0 {
                        1000u64
                    } else {
                        weight_of(s2, rad)
                    };
                    let c: i64 = scale_value(value, w);
                    proof {
                        lemma_index_bijection(*g, ny as int, nx as int);
                    }
                    let idx: usize = (ny as usize) * g.size_x + (nx as usize);
                    let cur: i64 = heat[idx];
                    let next: i64 = sat_add_i64(cur, c);
                    heat.set(idx, next);
                    proof {
                        let ii = idx as int;
                        assert(g.row_of_index(ii) == ny as int);
                        assert(g.col_of_index(ii) == nx as int);
                        assert(!cell_done(*g, *p, ii, dx as int, dy as int));
                        assert(cur == h0[ii]);
                        if rad == 0 {
                            assert(sqrt_floor(0nat) == 0);
                            assert(w as int == weight_fp(s2 as int, rad as int));
                        }
                        assert(cell_contrib(*g, *p, ny as int, nx as int) == c as int);
                        assert(heat@[ii] == target[ii]);
                    }
                }
            }
            proof {
                assert forall|i: int|
                    0 <= i < h0.len() implies #[trigger] heat@[i] == (if cell_done(
                    *g,
                    *p,
                    i,
                    dx as int,
                    dy as int + 1,
                ) {
                    target[i]
                } else {
                    h0[i]
                }) by {
                    lemma_index_decomposition(*g, i);
                }
            }
            dy = dy + 1;
        }
        dx = dx + 1;
    }
    proof {
        assert forall|i: int| 0 <= i < h0.len() implies heat@[i] == target[i] by {
            lemma_index_decomposition(*g, i);
        }
        assert(heat@ =~= target);
    }
}

} // verus!
