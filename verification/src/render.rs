//! The per-pixel rendering pipeline and the work-partitioning helpers
//! of the scheduler.
//!
//! For one pixel: map its coordinates to graph space (with the
//! vertical flip, since pixel space grows downward), convert to fixed
//! point, compute the axis/grid contribution, take each plot's
//! intensity as the greatest branch intensity of its evaluation
//! results, and composite. The embedding evaluates the expressions and
//! hands the per-branch complex results in; everything around that
//! call is exact.

use vstd::prelude::*;
use crate::color::{Rgb, spec_composite};
use crate::diff::{Cx, SCALE, pair_defined, pair_intensity, sharp_wf};
use crate::frac::{Frac, Rat, fits_i128};
use crate::geom::{Point, map1_fits, rat_map1};
use crate::overlay::{FxPoint, OVERLAY_BOUND, spec_axis_diff, spec_grid_diff};
use crate::params::Params;

verus! {

/// The fixed-point value of a rational, clamped to the overlay bound:
/// `floor(x * SCALE)`, saturated at `±OVERLAY_BOUND`.
pub open spec fn spec_to_fixed(x: Rat) -> int {
    let q = (x.num * SCALE) / x.den;
    if q < -OVERLAY_BOUND {
        -OVERLAY_BOUND as int
    } else if q > OVERLAY_BOUND {
        OVERLAY_BOUND as int
    } else {
        q
    }
}

/// Euclidean division of a negated non-negative numerator, in terms of
/// rounding the positive quotient up.
proof fn lemma_neg_div(a: int, d: int)
    requires
        0 <= a,
        0 < d,
    ensures
        (-a) / d == -((a + d - 1) / d),
{
    let q = a / d;
    let r = a % d;
    vstd::arithmetic::div_mod::lemma_fundamental_div_mod(a, d);
    if r == 0 {
        assert(d * (-q) == -(d * q)) by (nonlinear_arith);
        vstd::arithmetic::div_mod::lemma_fundamental_div_mod_converse(-a, d, -q, 0);
        assert(a + d - 1 == d * q + (d - 1));
        vstd::arithmetic::div_mod::lemma_fundamental_div_mod_converse(a + d - 1, d, q, d - 1);
    } else {
        assert(d * (-q - 1) == -(d * q) - d) by (nonlinear_arith);
        vstd::arithmetic::div_mod::lemma_fundamental_div_mod_converse(-a, d, -q - 1, d - r);
        assert(a + d - 1 == d * (q + 1) + (r - 1)) by {
            assert(d * (q + 1) == d * q + d) by (nonlinear_arith);
        }
        vstd::arithmetic::div_mod::lemma_fundamental_div_mod_converse(a + d - 1, d, q + 1, r - 1);
    }
}

/// Converts a rational to fixed point, clamping at the overlay bound.
pub fn to_fixed(x: &Frac) -> (r: i64)
    requires
        x.wf(),
        fits_i128(x@.num * SCALE),
        fits_i128(-(x@.num * SCALE)),
    ensures
        r as int == spec_to_fixed(x@),
        -OVERLAY_BOUND <= r <= OVERLAY_BOUND,
{
    let n: i128 = x.num * SCALE as i128;
    let q: i128 = if n >= 0 {
        proof {
            vstd::arithmetic::div_mod::lemma_div_pos_is_pos(n as int, x@.den);
            vstd::arithmetic::div_mod::lemma_div_is_ordered_by_denominator(n as int, 1, x@.den);
            vstd::arithmetic::div_mod::lemma_div_basics(n as int);
        }
        ((n as u128) / (x.den as u128)) as i128
    } else {
        let a: u128 = (-(n + 1)) as u128 + 1;
        let up: u128 = (a + (x.den as u128) - 1) / (x.den as u128);
        proof {
            lemma_neg_div(a as int, x@.den);
            vstd::arithmetic::div_mod::lemma_div_pos_is_pos(a + x@.den - 1, x@.den);
            assert(a as int + x@.den - 1 <= a as int * x@.den) by (nonlinear_arith)
                requires
                    a as int >= 1,
                    x@.den >= 1,
            ;
            vstd::arithmetic::div_mod::lemma_div_is_ordered(
                a as int + x@.den - 1,
                a as int * x@.den,
                x@.den,
            );
            vstd::arithmetic::div_mod::lemma_div_multiples_vanish(a as int, x@.den);
        }
        -(up as i128)
    };
    if q < -OVERLAY_BOUND as i128 {
        -OVERLAY_BOUND
    } else if q > OVERLAY_BOUND as i128 {
        OVERLAY_BOUND
    } else {
        q as i64
    }
}

/// The exact graph-space coordinates of the pixel `(px, py)`: the
/// flipped pixel point mapped from the image rectangle into the graph
/// rectangle.
pub open spec fn spec_graph_x(p: Params, px: int) -> Rat {
    rat_map1(
        Rat { num: px, den: 1 },
        p.img_rect.x@,
        p.img_rect.w@,
        p.graph_rect.x@,
        p.graph_rect.w@,
    )
}

pub open spec fn spec_graph_y(p: Params, py: int) -> Rat {
    rat_map1(
        Rat { num: p.size.1 - 1 - py, den: 1 },
        p.img_rect.y@,
        p.img_rect.h@,
        p.graph_rect.y@,
        p.graph_rect.h@,
    )
}

/// Maps a pixel to its exact graph-space point, applying the vertical
/// flip before the affine map.
pub fn graph_point(params: &Params, px: u32, py: u32) -> (r: Point)
    requires
        params.wf(),
        px < params.size.0,
        py < params.size.1,
    ensures
        r.wf(),
        r.x@ == spec_graph_x(*params, px as int),
        r.y@ == spec_graph_y(*params, py as int),
{
    let iy: u32 = params.size.1 - 1 - py;
    let p = Point { x: Frac { num: px as i128, den: 1 }, y: Frac { num: iy as i128, den: 1 } };
    proof {
        lemma_graph_map_fits(*params, px as int, iy as int);
    }
    params.img_rect.map_point(&p, &params.graph_rect)
}

/// All products of the pixel-to-graph mapping fit in an `i128` word,
/// for any valid configuration and in-range pixel.
proof fn lemma_graph_map_fits(p: Params, px: int, iy: int)
    requires
        p.wf(),
        0 <= px < p.size.0,
        0 <= iy < p.size.1,
    ensures
        p.img_rect.wf(),
        p.graph_rect.wf(),
        map1_fits(Rat { num: px, den: 1 }, p.img_rect.x@, p.img_rect.w@, p.graph_rect.x@,
            p.graph_rect.w@),
        map1_fits(Rat { num: iy, den: 1 }, p.img_rect.y@, p.img_rect.h@, p.graph_rect.y@,
            p.graph_rect.h@),
        fits_i128(spec_graph_x(p, px).num * SCALE),
        fits_i128(-(spec_graph_x(p, px).num * SCALE)),
        fits_i128(spec_graph_y(p, p.size.1 - 1 - iy).num * SCALE),
        fits_i128(-(spec_graph_y(p, p.size.1 - 1 - iy).num * SCALE)),
{
    let w = p.size.0 as int;
    let h = p.size.1 as int;
    let rn = p.graph_radius@.num;
    let rd = p.graph_radius@.den;
    let m = crate::params::spec_min_dim(w, h);
    assert(1 <= m <= 65536 && 0 < rd * m <= 0x10000000000) by (nonlinear_arith)
        requires
            0 < rd <= 1048576,
            m == crate::params::spec_min_dim(w, h),
            0 < w <= 65536,
            0 < h <= 65536,
    ;
    assert(0 < rn * w <= 0x10000000000 && 0 < rn * h <= 0x10000000000 && 0 < (2 * rn) * w
        <= 0x20000000000 && 0 < (2 * rn) * h <= 0x20000000000) by (nonlinear_arith)
        requires
            0 < rn <= 1048576,
            0 < w <= 65536,
            0 < h <= 65536,
    ;
    lemma_axis_map_fits(px, w, -(rn * w), 2 * rn * w, rd * m);
    lemma_axis_map_fits(iy, h, -(rn * h), 2 * rn * h, rd * m);
}

/// The single-axis bound: pixel coordinate and dimension below
/// `2^17`, graph offset and extent numerators below `2^42`, common
/// denominator below `2^42`.
proof fn lemma_axis_map_fits(v: int, w: int, gxn: int, gwn: int, gd: int)
    requires
        0 <= v < w,
        0 < w < 0x20000,
        -0x40000000000 <= gxn <= 0x40000000000,
        0 < gwn <= 0x40000000000,
        0 < gd <= 0x40000000000,
    ensures
        map1_fits(
            Rat { num: v, den: 1 },
            Rat { num: 0, den: 1 },
            Rat { num: w, den: 1 },
            Rat { num: gxn, den: gd },
            Rat { num: gwn, den: gd },
        ),
        fits_i128(
            rat_map1(
                Rat { num: v, den: 1 },
                Rat { num: 0, den: 1 },
                Rat { num: w, den: 1 },
                Rat { num: gxn, den: gd },
                Rat { num: gwn, den: gd },
            ).num * SCALE,
        ),
        fits_i128(
            -(rat_map1(
                Rat { num: v, den: 1 },
                Rat { num: 0, den: 1 },
                Rat { num: w, den: 1 },
                Rat { num: gxn, den: gd },
                Rat { num: gwn, den: gd },
            ).num * SCALE),
        ),
{
    assert(map1_fits(
        Rat { num: v, den: 1 },
        Rat { num: 0, den: 1 },
        Rat { num: w, den: 1 },
        Rat { num: gxn, den: gd },
        Rat { num: gwn, den: gd },
    ) && fits_i128(
        rat_map1(
            Rat { num: v, den: 1 },
            Rat { num: 0, den: 1 },
            Rat { num: w, den: 1 },
            Rat { num: gxn, den: gd },
            Rat { num: gwn, den: gd },
        ).num * SCALE,
    ) && fits_i128(
        -(rat_map1(
            Rat { num: v, den: 1 },
            Rat { num: 0, den: 1 },
            Rat { num: w, den: 1 },
            Rat { num: gxn, den: gd },
            Rat { num: gwn, den: gd },
        ).num * SCALE),
    )) by (nonlinear_arith)
        requires
            0 <= v < w,
            0 < w < 0x20000,
            -0x40000000000 <= gxn <= 0x40000000000,
            0 < gwn <= 0x40000000000,
            0 < gd <= 0x40000000000,
    ;
}

/// Maps a pixel to its graph-space point in fixed point.
pub fn graph_point_fx(params: &Params, px: u32, py: u32) -> (r: FxPoint)
    requires
        params.wf(),
        px < params.size.0,
        py < params.size.1,
    ensures
        r.x as int == spec_to_fixed(spec_graph_x(*params, px as int)),
        r.y as int == spec_to_fixed(spec_graph_y(*params, py as int)),
        r.in_bounds(),
{
    let p = graph_point(params, px, py);
    proof {
        lemma_graph_map_fits(*params, px as int, params.size.1 - 1 - py as int);
    }
    FxPoint { x: to_fixed(&p.x), y: to_fixed(&p.y) }
}

/// The evaluation results of one plot's two expressions on one branch:
/// each side may be multi-valued.
#[derive(Debug)]
pub struct BranchEval {
    pub lhs: Vec<Cx>,
    pub rhs: Vec<Cx>,
}

/// The evaluation results of one plot at one pixel, one entry per
/// branch.
#[derive(Debug)]
pub struct PlotEval {
    pub branches: Vec<BranchEval>,
}

pub open spec fn branch_in_bounds(b: BranchEval) -> bool {
    (forall|i: int| 0 <= i < b.lhs@.len() ==> (#[trigger] b.lhs@[i]).in_bounds()) && (forall|
        j: int,
    | 0 <= j < b.rhs@.len() ==> (#[trigger] b.rhs@[j]).in_bounds())
}

pub open spec fn plot_eval_in_bounds(e: PlotEval) -> bool {
    forall|b: int| 0 <= b < e.branches@.len() ==> branch_in_bounds(#[trigger] e.branches@[b])
}

/// Whether the pair `(i, j)` of branch `b` has a defined disagreement.
pub open spec fn bp_defined(e: PlotEval, plain: bool, b: int, i: int, j: int) -> bool {
    0 <= b < e.branches@.len() && pair_defined(e.branches@[b].lhs@, e.branches@[b].rhs@, plain, i, j)
}

/// The intensity of the pair `(i, j)` of branch `b`.
pub open spec fn bp_intensity(e: PlotEval, plain: bool, b: int, i: int, j: int, k: Rat) -> int {
    pair_intensity(e.branches@[b].lhs@, e.branches@[b].rhs@, plain, i, j, k)
}

/// `v` is the intensity this plot contributes at the pixel: the
/// greatest intensity of any defined value pair on any branch, zero
/// when there is none. (Since the intensity function decreases in the
/// distance, this is the intensity of the least disagreement.) These
/// two clauses pin `v` uniquely.
pub open spec fn is_plot_intensity(e: PlotEval, plain: bool, k: Rat, v: int) -> bool {
    (forall|b: int, i: int, j: int|
        #[trigger] bp_defined(e, plain, b, i, j) ==> v >= bp_intensity(e, plain, b, i, j, k)) && (v
        == 0 || exists|b: int, i: int, j: int|
        #[trigger] bp_defined(e, plain, b, i, j) && v == bp_intensity(e, plain, b, i, j, k))
}

/// The intensity one plot contributes at one pixel: the maximum over
/// its branches of the branch intensity.
pub fn plot_intensity(e: &PlotEval, plain: bool, k: &Frac) -> (r: u8)
    requires
        k.wf(),
        sharp_wf(k@),
        plot_eval_in_bounds(*e),
    ensures
        is_plot_intensity(*e, plain, k@, r as int),
{
    let mut best: u8 = 0;
    let mut b: usize = 0;
    while b < e.branches.len()
        invariant
            b <= e.branches@.len(),
            k.wf(),
            sharp_wf(k@),
            plot_eval_in_bounds(*e),
            forall|q: int, i: int, j: int|
                #[trigger] bp_defined(*e, plain, q, i, j) && q < b ==> best as int >= bp_intensity(
                    *e,
                    plain,
                    q,
                    i,
                    j,
                    k@,
                ),
            best == 0 || exists|q: int, i: int, j: int|
                #[trigger] bp_defined(*e, plain, q, i, j) && q < b && best as int == bp_intensity(
                    *e,
                    plain,
                    q,
                    i,
                    j,
                    k@,
                ),
        decreases e.branches@.len() - b,
    {
        let d = crate::diff::diff(&e.branches[b].lhs, &e.branches[b].rhs, plain, k);
        if d > best {
            best = d;
            proof {
                let (i, j) = choose|i: int, j: int|
                    #[trigger] pair_defined(
                        e.branches@[b as int].lhs@,
                        e.branches@[b as int].rhs@,
                        plain,
                        i,
                        j,
                    ) && d as int == pair_intensity(
                        e.branches@[b as int].lhs@,
                        e.branches@[b as int].rhs@,
                        plain,
                        i,
                        j,
                        k@,
                    );
                assert(bp_defined(*e, plain, b as int, i, j) && best as int == bp_intensity(
                    *e,
                    plain,
                    b as int,
                    i,
                    j,
                    k@,
                ));
            }
        }
        b = b + 1;
    }
    best
}

/// The axis/grid contribution at the pixel: zero with axes disabled,
/// otherwise the axis and grid intensities added, saturated at 255.
pub open spec fn spec_axisness(p: Params, px: int, py: int) -> int {
    if !p.draw_axes {
        0
    } else {
        let fx = spec_to_fixed(spec_graph_x(p, px));
        let fy = spec_to_fixed(spec_graph_y(p, py));
        let a = spec_axis_diff(fx, fy, p.pix_r_fx as int) + spec_grid_diff(
            fx,
            fy,
            p.pix_r_fx as int,
            p.grid_size_fx as int,
        );
        if a > 255 {
            255
        } else {
            a
        }
    }
}

/// Renders one pixel: maps it to graph space, computes the axis/grid
/// contribution, takes each plot's intensity from its evaluation
/// results, and composites them over a white background through each
/// plot's channel mask.
pub fn render_pixel(params: &Params, plots: &Vec<(u8, PlotEval)>, px: u32, py: u32) -> (c: Rgb)
    requires
        params.wf(),
        px < params.size.0,
        py < params.size.1,
        forall|p: int| 0 <= p < plots@.len() ==> plot_eval_in_bounds((#[trigger] plots@[p]).1),
    ensures
        exists|ints: Seq<(u8, u8)>|
            #![trigger spec_composite(spec_axisness(*params, px as int, py as int) as u8, ints)]
            ints.len() == plots@.len() && (forall|p: int|
                0 <= p < ints.len() ==> (#[trigger] ints[p]).0 == plots@[p].0 && is_plot_intensity(
                    plots@[p].1,
                    params.plain_diff,
                    params.sharp_sq@,
                    ints[p].1 as int,
                )) && c == spec_composite(spec_axisness(*params, px as int, py as int) as u8, ints),
{
    let fx = graph_point_fx(params, px, py);
    let axis: u8 = if params.draw_axes {
        let a: u16 = crate::overlay::axis_diff(&fx, params.pix_r_fx) as u16
            + crate::overlay::grid_diff(&fx, params.pix_r_fx, params.grid_size_fx) as u16;
        if a > 255 {
            255
        } else {
            a as u8
        }
    } else {
        0
    };
    let mut pairs: Vec<(u8, u8)> = Vec::new();
    let mut p: usize = 0;
    while p < plots.len()
        invariant
            p <= plots@.len(),
            params.wf(),
            forall|q: int| 0 <= q < plots@.len() ==> plot_eval_in_bounds((#[trigger] plots@[q]).1),
            pairs@.len() == p,
            forall|q: int|
                0 <= q < p ==> (#[trigger] pairs@[q]).0 == plots@[q].0 && is_plot_intensity(
                    plots@[q].1,
                    params.plain_diff,
                    params.sharp_sq@,
                    pairs@[q].1 as int,
                ),
        decreases plots@.len() - p,
    {
        let mask = plots[p].0;
        let v = plot_intensity(&plots[p].1, params.plain_diff, &params.sharp_sq);
        pairs.push((mask, v));
        p = p + 1;
    }
    let c = crate::color::composite_pixel(axis, &pairs);
    proof {
        assert(axis as int == spec_axisness(*params, px as int, py as int));
        let ints = pairs@;
        assert(ints.len() == plots@.len() && (forall|q: int|
            0 <= q < ints.len() ==> (#[trigger] ints[q]).0 == plots@[q].0 && is_plot_intensity(
                plots@[q].1,
                params.plain_diff,
                params.sharp_sq@,
                ints[q].1 as int,
            )) && c == spec_composite(spec_axisness(*params, px as int, py as int) as u8, ints));
    }
    c
}

/// The flat index of the pixel `(x, y)` in row-major order.
pub fn pixel_index(x: u32, y: u32, width: u32) -> (idx: u64)
    requires
        x < width,
    ensures
        idx == y as int * width as int + x as int,
{
    proof {
        assert((y as int) * (width as int) + (x as int) < 0x10000000000000000) by (
        nonlinear_arith)
            requires
                (y as int) <= 0xffffffff,
                (width as int) <= 0xffffffff,
                (x as int) <= 0xffffffff,
        ;
    }
    y as u64 * width as u64 + x as u64
}

/// The pixel coordinates of a flat row-major index.
pub fn pixel_coords(idx: u64, width: u32) -> (r: (u32, u32))
    requires
        width > 0,
        idx < 0x100000000 * width as int,
    ensures
        r.0 < width,
        idx == r.1 as int * width as int + r.0 as int,
{
    let x = (idx % width as u64) as u32;
    let y = (idx / width as u64) as u32;
    proof {
        vstd::arithmetic::div_mod::lemma_fundamental_div_mod(idx as int, width as int);
        vstd::arithmetic::div_mod::lemma_div_pos_is_pos(idx as int, width as int);
        assert((idx as int) / (width as int) < 0x100000000) by (nonlinear_arith)
            requires
                (idx as int) < 0x100000000 * (width as int),
                (width as int) > 0,
                (idx as int) >= 0,
        ;
        vstd::arithmetic::mul::lemma_mul_is_commutative(width as int, (idx as int) / (width as int));
    }
    (x, y)
}

/// Distinct pixels have distinct flat indices: the scheduler hands
/// each pixel to exactly one worker.
pub proof fn lemma_pixel_index_bijective(x1: int, y1: int, x2: int, y2: int, width: int)
    requires
        0 <= x1 < width,
        0 <= x2 < width,
        0 <= y1,
        0 <= y2,
        y1 * width + x1 == y2 * width + x2,
    ensures
        x1 == x2,
        y1 == y2,
{
    let idx = y1 * width + x1;
    vstd::arithmetic::mul::lemma_mul_is_commutative(y1, width);
    vstd::arithmetic::mul::lemma_mul_is_commutative(y2, width);
    vstd::arithmetic::div_mod::lemma_fundamental_div_mod_converse(idx, width, y1, x1);
    vstd::arithmetic::div_mod::lemma_fundamental_div_mod_converse(idx, width, y2, x2);
}

/// The worker a flat pixel index is assigned to, round robin.
pub fn worker_of(idx: u64, workers: u64) -> (w: u64)
    requires
        workers > 0,
    ensures
        w == idx as int % workers as int,
        w < workers,
{
    idx % workers
}

} // verus!
