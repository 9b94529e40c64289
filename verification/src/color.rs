//! Gradient color mapping: converting a cell density into an RGBA color by
//! piecewise-linear interpolation across an ordered list of gradient stops.

use vstd::prelude::*;
use vstd::math::abs;
use vstd::arithmetic::div_mod::lemma_fundamental_div_mod;
use vstd::arithmetic::div_mod::lemma_fundamental_div_mod_converse;
use crate::rgba::RGBA;
use crate::arith::round_div;

verus! {

/// Numerator of the normalized gradient position `h * n / m`, negated when
/// the ceiling `m` is negative so that the divisor can be taken as `|m|`.
pub open spec fn step_num(h: int, n: int, m: int) -> int {
    if m < 0 {
        -(h * n)
    } else {
        h * n
    }
}

/// The gradient band a density falls into: `floor(h / (m / n))`.
pub open spec fn step_index(h: int, n: int, m: int) -> int {
    step_num(h, n, m) / (abs(m) as int)
}

/// Position inside the band, as a numerator over denominator `|m|`.
pub open spec fn step_rem(h: int, n: int, m: int) -> int {
    step_num(h, n, m) % (abs(m) as int)
}

/// One channel linearly interpolated between `prev` and `next` at fraction
/// `rem / mm`, rounded to the nearest integer (ties up).
pub open spec fn lerp_channel(prev: int, next: int, rem: int, mm: int) -> int {
    round_div(prev * (mm - rem) + next * rem, mm)
}

/// The color assigned to density `h` by gradient `g` under ceiling `m`.
///
/// Densities at or above the ceiling clamp to the last stop. Densities in
/// the first band keep the first stop's channels but ramp the alpha from
/// fully transparent at zero. Densities at or below zero (and a
/// non-positive position under a degenerate ceiling) give the first stop
/// fully transparent; a zero ceiling saturates every positive density.
pub open spec fn color_of(h: int, g: Seq<RGBA>, m: int) -> RGBA
    recommends
        g.len() >= 1,
{
    let n = g.len() as int;
    if m == 0 {
        if h > 0 {
            g[n - 1]
        } else {
            RGBA { r: g[0].r, g: g[0].g, b: g[0].b, a: 0 }
        }
    } else {
        let q = step_index(h, n, m);
        let rem = step_rem(h, n, m);
        let mm = abs(m) as int;
        if q >= n {
            g[n - 1]
        } else if q < 0 {
            RGBA { r: g[0].r, g: g[0].g, b: g[0].b, a: 0 }
        } else if q == 0 {
            RGBA { r: g[0].r, g: g[0].g, b: g[0].b, a: round_div(255 * rem, mm) as u8 }
        } else {
            RGBA {
                r: lerp_channel(g[q - 1].r as int, g[q].r as int, rem, mm) as u8,
                g: lerp_channel(g[q - 1].g as int, g[q].g as int, rem, mm) as u8,
                b: lerp_channel(g[q - 1].b as int, g[q].b as int, rem, mm) as u8,
                a: lerp_channel(g[q - 1].a as int, g[q].a as int, rem, mm) as u8,
            }
        }
    }
}

/// The whole color grid as a pure function of the density grid, the
/// gradient, and the ceiling.
pub open spec fn colors_of(h: Seq<i64>, g: Seq<RGBA>, m: int) -> Seq<RGBA> {
    Seq::new(h.len(), |i: int| color_of(h[i] as int, g, m))
}

/// Channel `k` of a color in packed `r, g, b, a` order.
pub open spec fn rgba_channel(c: RGBA, k: int) -> u8 {
    if k == 0 {
        c.r
    } else if k == 1 {
        c.g
    } else if k == 2 {
        c.b
    } else {
        c.a
    }
}

/// The color grid in packed interleaved byte layout.
pub open spec fn packed_colors_of(h: Seq<i64>, g: Seq<RGBA>, m: int) -> Seq<u8> {
    Seq::new(4 * h.len(), |j: int| rgba_channel(color_of(h[j / 4] as int, g, m), j % 4))
}

/// A quotient of nonnegative by positive is nonnegative; of negative by
/// positive is negative.
proof fn lemma_div_sign(a: int, b: int)
    requires
        b >= 1,
    ensures
        a >= 0 ==> a / b >= 0,
        a < 0 ==> a / b < 0,
{
    lemma_fundamental_div_mod(a, b);
    vstd::arithmetic::div_mod::lemma_mod_bound(a, b);
    assert(a >= 0 ==> a / b >= 0) by (nonlinear_arith)
        requires
            a == b * (a / b) + a % b,
            0 <= a % b < b,
            b >= 1,
    ;
    assert(a < 0 ==> a / b < 0) by (nonlinear_arith)
        requires
            a == b * (a / b) + a % b,
            0 <= a % b < b,
            b >= 1,
    ;
}

/// Round-half-up division stays within `[0, c]` when `p <= c * q`.
proof fn lemma_round_div_bounds(p: int, q: int, c: int)
    requires
        0 <= p,
        p <= c * q,
        q >= 1,
        c >= 0,
    ensures
        0 <= round_div(p, q) <= c,
{
    lemma_div_sign(2 * p + q, 2 * q);
    lemma_fundamental_div_mod(2 * p + q, 2 * q);
    vstd::arithmetic::div_mod::lemma_mod_bound(2 * p + q, 2 * q);
    assert(round_div(p, q) <= c) by (nonlinear_arith)
        requires
            2 * p + q == (2 * q) * round_div(p, q) + (2 * p + q) % (2 * q),
            0 <= (2 * p + q) % (2 * q),
            p <= c * q,
            q >= 1,
            c >= 0,
            round_div(p, q) == (2 * p + q) / (2 * q),
    ;
}

/// Exact interpolation endpoints: rounding `c * q / q` gives back `c`.
proof fn lemma_round_div_exact(c: int, q: int)
    requires
        q >= 1,
        c >= 0,
    ensures
        round_div(c * q, q) == c,
{
    assert(2 * (c * q) + q == c * (2 * q) + q) by (nonlinear_arith);
    lemma_fundamental_div_mod_converse(2 * (c * q) + q, 2 * q, c, q);
}

/// Computes [`color_of`] exactly.
pub fn map_color(h: i64, g: &Vec<RGBA>, m: i64) -> (c: RGBA)
    requires
        g@.len() >= 1,
    ensures
        c == color_of(h as int, g@, m as int),
{
    let n: usize = g.len();
    if m == 0 {
        if h > 0 {
            return g[n - 1];
        } else {
            let first = g[0];
            return RGBA { r: first.r, g: first.g, b: first.b, a: 0 };
        }
    }
    proof {
        assert(-0x8000_0000_0000_0000_0000_0000_0000_0000 < (h as int) * (n as int)
            < 0x8000_0000_0000_0000_0000_0000_0000_0000) by (nonlinear_arith)
            requires
                -0x8000_0000_0000_0000 <= h as int <= 0x7fff_ffff_ffff_ffff,
                1 <= n as int <= 0xffff_ffff_ffff_ffff,
        ;
    }
    let hn: i128 = (h as i128) * (n as i128);
    let aa: i128 = if m < 0 {
        -hn
    } else {
        hn
    };
    let mm: u128 = if m < 0 {
        (-(m as i128)) as u128
    } else {
        m as u128
    };
    proof {
        lemma_div_sign(aa as int, mm as int);
    }
    if aa < 0 {
        let first = g[0];
        return RGBA { r: first.r, g: first.g, b: first.b, a: 0 };
    }
    let au: u128 = aa as u128;
    let q: u128 = au / mm;
    let rem: u128 = au % mm;
    proof {
        vstd::arithmetic::div_mod::lemma_mod_pos_bound(au as int, mm as int);
    }
    if q >= n as u128 {
        return g[n - 1];
    }
    if q == 0 {
        let first = g[0];
        proof {
            lemma_round_div_bounds(255 * (rem as int), mm as int, 255);
        }
        let alpha: u128 = (2 * (255 * rem) + mm) / (2 * mm);
        return RGBA { r: first.r, g: first.g, b: first.b, a: alpha as u8 };
    }
    let qi: usize = q as usize;
    let prev = g[qi - 1];
    let next = g[qi];
    RGBA {
        r: lerp_channel_x(prev.r, next.r, rem, mm),
        g: lerp_channel_x(prev.g, next.g, rem, mm),
        b: lerp_channel_x(prev.b, next.b, rem, mm),
        a: lerp_channel_x(prev.a, next.a, rem, mm),
    }
}

/// One interpolated channel, rounded to the nearest integer.
fn lerp_channel_x(prev: u8, next: u8, rem: u128, mm: u128) -> (v: u8)
    requires
        1 <= mm <= 0x8000_0000_0000_0000,
        rem < mm,
    ensures
        v as int == lerp_channel(prev as int, next as int, rem as int, mm as int),
{
    proof {
        assert((prev as int) * (mm - rem) + (next as int) * (rem as int) <= 255 * (mm as int)
            && (prev as int) * (mm - rem) >= 0 && (next as int) * (rem as int) >= 0)
            by (nonlinear_arith)
            requires
                0 <= prev as int <= 255,
                0 <= next as int <= 255,
                0 <= (rem as int) < (mm as int),
        ;
        lemma_round_div_bounds(
            (prev as int) * (mm - rem) + (next as int) * (rem as int),
            mm as int,
            255,
        );
    }
    let p: u128 = (prev as u128) * (mm - rem) + (next as u128) * rem;
    let v: u128 = (2 * p + mm) / (2 * mm);
    v as u8
}

/// Recomputes the whole structured color grid from the density grid.
pub fn recolor(colors: &mut Vec<RGBA>, heat: &Vec<i64>, gradient: &Vec<RGBA>, m: i64)
    requires
        gradient@.len() >= 1,
        old(colors)@.len() == heat@.len(),
    ensures
        final(colors)@ == colors_of(heat@, gradient@, m as int),
{
    let n: usize = heat.len();
    let mut i: usize = 0;
    while i < n
        invariant
            n == heat@.len(),
            colors@.len() == n,
            gradient@.len() >= 1,
            i <= n,
            forall|j: int| 0 <= j < i ==> #[trigger] colors@[j] == color_of(
                heat@[j] as int,
                gradient@,
                m as int,
            ),
        decreases n - i,
    {
        let c = map_color(heat[i], gradient, m);
        colors.set(i, c);
        i = i + 1;
    }
    proof {
        assert(colors@ =~= colors_of(heat@, gradient@, m as int));
    }
}

/// Recomputes the whole packed byte color grid from the density grid.
pub fn recolor_packed(colors: &mut Vec<u8>, heat: &Vec<i64>, gradient: &Vec<RGBA>, m: i64)
    requires
        gradient@.len() >= 1,
        old(colors)@.len() == 4 * heat@.len(),
    ensures
        final(colors)@ == packed_colors_of(heat@, gradient@, m as int),
{
    let n: usize = heat.len();
    let total: usize = colors.len();
    let mut i: usize = 0;
    while i < n
        invariant
            n == heat@.len(),
            total == 4 * n,
            colors@.len() == 4 * n,
            gradient@.len() >= 1,
            i <= n,
            forall|j: int| 0 <= j < 4 * i ==> #[trigger] colors@[j] == packed_colors_of(
                heat@,
                gradient@,
                m as int,
            )[j],
        decreases n - i,
    {
        let c = map_color(heat[i], gradient, m);
        let base: usize = 4 * i;
        colors.set(base, c.r);
        colors.set(base + 1, c.g);
        colors.set(base + 2, c.b);
        colors.set(base + 3, c.a);
        proof {
            lemma_fundamental_div_mod_converse(4 * i as int, 4, i as int, 0);
            lemma_fundamental_div_mod_converse(4 * i as int + 1, 4, i as int, 1);
            lemma_fundamental_div_mod_converse(4 * i as int + 2, 4, i as int, 2);
            lemma_fundamental_div_mod_converse(4 * i as int + 3, 4, i as int, 3);
        }
        i = i + 1;
    }
    proof {
        assert(colors@ =~= packed_colors_of(heat@, gradient@, m as int));
    }
}

/// The color grid is deterministic: two color grids computed from the same
/// density grid, gradient, and ceiling are identical.
pub proof fn lemma_recolor_deterministic(
    c1: Seq<RGBA>,
    c2: Seq<RGBA>,
    h: Seq<i64>,
    g: Seq<RGBA>,
    m: int,
)
    requires
        c1 == colors_of(h, g, m),
        c2 == colors_of(h, g, m),
    ensures
        c1 == c2,
{
}

/// Color mapping is continuous across step boundaries: a density lying
/// exactly on the boundary `k / n` of the ceiling (for `1 <= k <= n`) maps
/// exactly to stop `k - 1`, the common limit of the bands on either side.
/// At `k == n` this is also the value the top clamp yields.
pub proof fn lemma_color_continuous_at_boundaries(h: int, g: Seq<RGBA>, m: int, k: int)
    requires
        g.len() >= 1,
        m >= 1,
        1 <= k <= g.len(),
        h * g.len() == k * m,
    ensures
        color_of(h, g, m) == g[k - 1],
{
    let n = g.len() as int;
    lemma_fundamental_div_mod_converse(k * m, m, k, 0);
    assert(step_num(h, n, m) == k * m);
    assert(step_index(h, n, m) == k);
    assert(step_rem(h, n, m) == 0);
    if k < n {
        lemma_round_div_exact(g[k - 1].r as int, m);
        lemma_round_div_exact(g[k - 1].g as int, m);
        lemma_round_div_exact(g[k - 1].b as int, m);
        lemma_round_div_exact(g[k - 1].a as int, m);
        assert((g[k - 1].r as int) * (m - 0) == (g[k - 1].r as int) * m) by (nonlinear_arith);
        assert((g[k - 1].g as int) * (m - 0) == (g[k - 1].g as int) * m) by (nonlinear_arith);
        assert((g[k - 1].b as int) * (m - 0) == (g[k - 1].b as int) * m) by (nonlinear_arith);
        assert((g[k - 1].a as int) * (m - 0) == (g[k - 1].a as int) * m) by (nonlinear_arith);
        assert((g[k].r as int) * 0 == 0) by (nonlinear_arith);
        assert((g[k].g as int) * 0 == 0) by (nonlinear_arith);
        assert((g[k].b as int) * 0 == 0) by (nonlinear_arith);
        assert((g[k].a as int) * 0 == 0) by (nonlinear_arith);
    }
}

/// Zero density maps to the first stop made fully transparent.
pub proof fn lemma_color_transparent_at_zero(g: Seq<RGBA>, m: int)
    requires
        g.len() >= 1,
        m >= 1,
    ensures
        color_of(0, g, m) == (RGBA { r: g[0].r, g: g[0].g, b: g[0].b, a: 0 }),
{
    let n = g.len() as int;
    assert(0 * n == 0) by (nonlinear_arith);
    lemma_fundamental_div_mod_converse(0, m, 0, 0);
    assert(step_index(0, n, m) == 0);
    assert(step_rem(0, n, m) == 0);
    assert(255 * 0 == 0);
    lemma_fundamental_div_mod_converse(m, 2 * m, 0, m);
    assert(round_div(0, m) == 0);
}

} // verus!
