//! The derived, immutable configuration bundle.
//!
//! Built once from plain argument values before any rendering work
//! begins; every malformed input is rejected here, eagerly, so the
//! renderer itself has no failure mode. The zoom radius, grid spacing
//! and squared sharpness arrive as exact rationals (the command line
//! layer converts its floating-point knobs before calling in).

use vstd::prelude::*;
use crate::diff::{SCALE, SHARP_BOUND, sharp_wf};
use crate::frac::{Frac, Rat};
use crate::geom::Rect;
use crate::overlay::OVERLAY_BOUND;

verus! {

/// Largest accepted image dimension; keeps every product of the
/// pixel-to-graph mapping inside an `i128` word.
pub const MAX_DIM: u32 = 65535;

/// Bound on the numerator and denominator of the zoom radius and the
/// grid spacing.
pub const RADIUS_BOUND: i128 = 1048576;

/// Default image width and height.
pub const DEFAULT_DIM: u32 = 800;

/// Why an argument bundle was rejected.
#[derive(Clone, Copy, Debug, PartialEq, Eq, Structural)]
pub enum ParamError {
    /// The size vector has a length other than 0 or 2.
    BadSizeVec,
    /// A dimension is zero or exceeds `MAX_DIM`.
    SizeOutOfRange,
    /// The theta-range vector has a length other than 0 or 2.
    BadRangeVec,
    /// The theta range is empty (maximum below minimum).
    EmptyRange,
    /// The zoom radius is not a positive bounded rational.
    BadRadius,
    /// The grid spacing is not a non-negative bounded rational.
    BadGridSize,
    /// The squared sharpness is not a positive bounded rational.
    BadSharpness,
}

/// The size vector is either absent or a width/height pair.
pub open spec fn size_vec_ok(v: Seq<u32>) -> bool {
    v.len() == 0 || v.len() == 2
}

/// The effective image size: the given pair, or the default.
pub open spec fn spec_size(v: Seq<u32>) -> (int, int) {
    if v.len() == 2 {
        (v[0] as int, v[1] as int)
    } else {
        (DEFAULT_DIM as int, DEFAULT_DIM as int)
    }
}

pub open spec fn size_ok(w: int, h: int) -> bool {
    0 < w <= MAX_DIM && 0 < h <= MAX_DIM
}

/// The theta-range vector is either absent or a min/max pair.
pub open spec fn range_vec_ok(v: Seq<i32>) -> bool {
    v.len() == 0 || v.len() == 2
}

/// The normalized theta range: `(min, max + 1)`, making the inclusive
/// command-line maximum exclusive; absent means `(0, 1)`.
pub open spec fn spec_t_range(v: Seq<i32>) -> (int, int) {
    if v.len() == 2 {
        (v[0] as int, v[1] as int + 1)
    } else {
        (0, 1)
    }
}

pub open spec fn range_ok(lo: int, hi: int) -> bool {
    lo < hi
}

pub open spec fn radius_ok(r: Rat) -> bool {
    0 < r.num <= RADIUS_BOUND && 0 < r.den <= RADIUS_BOUND
}

pub open spec fn grid_ok(g: Rat) -> bool {
    0 <= g.num <= RADIUS_BOUND && 0 < g.den <= RADIUS_BOUND
}

/// The shorter image dimension, to which the zoom radius applies.
pub open spec fn spec_min_dim(w: int, h: int) -> int {
    if w <= h {
        w
    } else {
        h
    }
}

/// The derived, immutable configuration bundle; shared read-only by
/// every worker.
#[derive(Debug)]
pub struct Params {
    /// Image size in pixels, both positive.
    pub size: (u32, u32),
    /// Normalized theta-branch range, inclusive-exclusive, non-empty.
    pub t_range: (i64, i64),
    /// The pixel rectangle `(0, 0, width, height)`.
    pub img_rect: Rect,
    /// The graph rectangle: centered on the origin, the shorter side
    /// spanning `2 * graph_radius`, the longer side in proportion.
    pub graph_rect: Rect,
    /// The zoom radius `2^(-zoom)` as an exact rational.
    pub graph_radius: Frac,
    /// Graph-space radius of one pixel: `graph_radius / min(w, h)`.
    pub graph_pixel_r: Frac,
    /// `graph_pixel_r` in fixed point.
    pub pix_r_fx: i64,
    /// Grid spacing in fixed point.
    pub grid_size_fx: i64,
    /// Squared sharpness factor for the intensity function.
    pub sharp_sq: Frac,
    /// Plain (unnormalized) difference mode.
    pub plain_diff: bool,
    /// Whether axes and grid are drawn.
    pub draw_axes: bool,
}

impl Params {
    /// Internal consistency: validated size and range, and every
    /// derived field exactly as computed from size and radius.
    pub open spec fn wf(self) -> bool {
        let w = self.size.0 as int;
        let h = self.size.1 as int;
        let m = spec_min_dim(w, h);
        let rn = self.graph_radius@.num;
        let rd = self.graph_radius@.den;
        size_ok(w, h) && self.t_range.0 < self.t_range.1 && radius_ok(self.graph_radius@)
            && self.img_rect.x@ == (Rat { num: 0, den: 1 }) && self.img_rect.y@ == (Rat {
            num: 0,
            den: 1,
        }) && self.img_rect.w@ == (Rat { num: w, den: 1 }) && self.img_rect.h@ == (Rat {
            num: h,
            den: 1,
        }) && self.graph_rect.x@ == (Rat { num: -(rn * w), den: rd * m }) && self.graph_rect.y@
            == (Rat { num: -(rn * h), den: rd * m }) && self.graph_rect.w@ == (Rat {
            num: 2 * rn * w,
            den: rd * m,
        }) && self.graph_rect.h@ == (Rat { num: 2 * rn * h, den: rd * m })
            && self.graph_pixel_r@ == (Rat { num: rn, den: rd * m }) && self.pix_r_fx as int == (
        rn * SCALE) / (rd * m) && 0 <= self.pix_r_fx <= OVERLAY_BOUND && 0 <= self.grid_size_fx
            <= OVERLAY_BOUND && self.sharp_sq.wf() && sharp_wf(self.sharp_sq@)
    }

    /// Validates the argument bundle and derives the rendering
    /// geometry. Succeeds exactly on well-formed arguments; each
    /// error names the first check that failed.
    pub fn from_args(
        size_arg: &Vec<u32>,
        t_range_arg: &Vec<i32>,
        graph_radius: Frac,
        grid_size: Frac,
        sharp_sq: Frac,
        plain_diff: bool,
        draw_axes: bool,
    ) -> (res: Result<Params, ParamError>)
        ensures
            res is Ok <==> (size_vec_ok(size_arg@) && size_ok(
                spec_size(size_arg@).0,
                spec_size(size_arg@).1,
            ) && range_vec_ok(t_range_arg@) && range_ok(
                spec_t_range(t_range_arg@).0,
                spec_t_range(t_range_arg@).1,
            ) && radius_ok(graph_radius@) && grid_ok(grid_size@) && sharp_wf(sharp_sq@)),
            res == Err::<Params, ParamError>(ParamError::BadSizeVec) <==> !size_vec_ok(size_arg@),
            size_vec_ok(size_arg@) ==> (res == Err::<Params, ParamError>(
                ParamError::SizeOutOfRange,
            ) <==> !size_ok(spec_size(size_arg@).0, spec_size(size_arg@).1)),
            size_vec_ok(size_arg@) && size_ok(spec_size(size_arg@).0, spec_size(size_arg@).1)
                ==> (res == Err::<Params, ParamError>(ParamError::BadRangeVec) <==> !range_vec_ok(
                t_range_arg@,
            )),
            size_vec_ok(size_arg@) && size_ok(spec_size(size_arg@).0, spec_size(size_arg@).1)
                && range_vec_ok(t_range_arg@) ==> (res == Err::<Params, ParamError>(
                ParamError::EmptyRange,
            ) <==> !range_ok(spec_t_range(t_range_arg@).0, spec_t_range(t_range_arg@).1)),
            size_vec_ok(size_arg@) && size_ok(spec_size(size_arg@).0, spec_size(size_arg@).1)
                && range_vec_ok(t_range_arg@) && range_ok(
                spec_t_range(t_range_arg@).0,
                spec_t_range(t_range_arg@).1,
            ) ==> (res == Err::<Params, ParamError>(ParamError::BadRadius) <==> !radius_ok(
                graph_radius@,
            )),
            size_vec_ok(size_arg@) && size_ok(spec_size(size_arg@).0, spec_size(size_arg@).1)
                && range_vec_ok(t_range_arg@) && range_ok(
                spec_t_range(t_range_arg@).0,
                spec_t_range(t_range_arg@).1,
            ) && radius_ok(graph_radius@) ==> (res == Err::<Params, ParamError>(
                ParamError::BadGridSize,
            ) <==> !grid_ok(grid_size@)),
            size_vec_ok(size_arg@) && size_ok(spec_size(size_arg@).0, spec_size(size_arg@).1)
                && range_vec_ok(t_range_arg@) && range_ok(
                spec_t_range(t_range_arg@).0,
                spec_t_range(t_range_arg@).1,
            ) && radius_ok(graph_radius@) && grid_ok(grid_size@) ==> (res == Err::<
                Params,
                ParamError,
            >(ParamError::BadSharpness) <==> !sharp_wf(sharp_sq@)),
            res is Ok ==> {
                let p = res->Ok_0;
                p.wf() && p.size.0 as int == spec_size(size_arg@).0 && p.size.1 as int
                    == spec_size(size_arg@).1 && p.t_range.0 as int == spec_t_range(
                    t_range_arg@,
                ).0 && p.t_range.1 as int == spec_t_range(t_range_arg@).1 && p.graph_radius
                    == graph_radius && p.sharp_sq == sharp_sq && p.plain_diff == plain_diff
                    && p.draw_axes == draw_axes && p.grid_size_fx as int == (grid_size@.num
                    * SCALE) / grid_size@.den
            },
    {
        if !(size_arg.len() == 0 || size_arg.len() == 2) {
            return Err(ParamError::BadSizeVec);
        }
        let (w, h): (u32, u32) = if size_arg.len() == 2 {
            (size_arg[0], size_arg[1])
        } else {
            (DEFAULT_DIM, DEFAULT_DIM)
        };
        if w == 0 || h == 0 || w > MAX_DIM || h > MAX_DIM {
            return Err(ParamError::SizeOutOfRange);
        }
        if !(t_range_arg.len() == 0 || t_range_arg.len() == 2) {
            return Err(ParamError::BadRangeVec);
        }
        let (t0, t1): (i64, i64) = if t_range_arg.len() == 2 {
            (t_range_arg[0] as i64, t_range_arg[1] as i64 + 1)
        } else {
            (0, 1)
        };
        if !(t0 < t1) {
            return Err(ParamError::EmptyRange);
        }
        if !(graph_radius.den > 0 && graph_radius.num > 0 && graph_radius.num <= RADIUS_BOUND
            && graph_radius.den <= RADIUS_BOUND) {
            return Err(ParamError::BadRadius);
        }
        if !(grid_size.den > 0 && grid_size.num >= 0 && grid_size.num <= RADIUS_BOUND
            && grid_size.den <= RADIUS_BOUND) {
            return Err(ParamError::BadGridSize);
        }
        if !(sharp_sq.den > 0 && sharp_sq.num > 0 && sharp_sq.num <= SHARP_BOUND as i128
            && sharp_sq.den <= SHARP_BOUND as i128) {
            return Err(ParamError::BadSharpness);
        }
        let m: i128 = if w <= h {
            w as i128
        } else {
            h as i128
        };
        let rn: i128 = graph_radius.num;
        let rd: i128 = graph_radius.den;
        proof {
            assert(0 < rd * m <= 0x10000000000 && 0 < rn * m <= 0x10000000000) by (
            nonlinear_arith)
                requires
                    0 < rd as int <= 1048576,
                    0 < rn as int <= 1048576,
                    0 < m as int <= 65535,
            ;
            assert(0 < rn * (w as int) <= 0x10000000000 && 0 < rn * (h as int)
                <= 0x10000000000) by (nonlinear_arith)
                requires
                    0 < rn as int <= 1048576,
                    0 < w as int <= 65535,
                    0 < h as int <= 65535,
            ;
            assert(0 < (2 * rn) * (w as int) <= 0x20000000000 && 0 < (2 * rn) * (h as int)
                <= 0x20000000000) by (nonlinear_arith)
                requires
                    0 < rn as int <= 1048576,
                    0 < w as int <= 65535,
                    0 < h as int <= 65535,
            ;
        }
        let img_rect = Rect {
            x: Frac { num: 0, den: 1 },
            y: Frac { num: 0, den: 1 },
            w: Frac { num: w as i128, den: 1 },
            h: Frac { num: h as i128, den: 1 },
        };
        let gden: i128 = rd * m;
        let graph_rect = Rect {
            x: Frac { num: -(rn * w as i128), den: gden },
            y: Frac { num: -(rn * h as i128), den: gden },
            w: Frac { num: 2 * rn * w as i128, den: gden },
            h: Frac { num: 2 * rn * h as i128, den: gden },
        };
        let graph_pixel_r = Frac { num: rn, den: gden };
        let pix_num: i128 = rn * SCALE as i128;
        proof {
            lemma_pos_div_bounds(pix_num as int, gden as int, RADIUS_BOUND * SCALE as int);
        }
        let pix_r_fx: i64 = ((pix_num as u128) / (gden as u128)) as i64;
        let grid_num: i128 = grid_size.num * SCALE as i128;
        proof {
            lemma_pos_div_bounds(
                grid_num as int,
                grid_size@.den,
                RADIUS_BOUND * SCALE as int,
            );
        }
        let grid_size_fx: i64 = ((grid_num as u128) / (grid_size.den as u128)) as i64;
        Ok(
            Params {
                size: (w, h),
                t_range: (t0, t1),
                img_rect,
                graph_rect,
                graph_radius,
                graph_pixel_r,
                pix_r_fx,
                grid_size_fx,
                sharp_sq,
                plain_diff,
                draw_axes,
            },
        )
    }
}

/// A quotient of non-negative by positive stays within the numerator's
/// bound.
proof fn lemma_pos_div_bounds(num: int, den: int, bound: int)
    requires
        0 <= num <= bound,
        0 < den,
    ensures
        0 <= num / den <= bound,
{
    vstd::arithmetic::div_mod::lemma_div_pos_is_pos(num, den);
    vstd::arithmetic::div_mod::lemma_div_is_ordered_by_denominator(num, 1, den);
    vstd::arithmetic::div_mod::lemma_div_basics(num);
}

} // verus!
