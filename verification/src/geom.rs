//! Points, rectangles, and the affine coordinate mapper between
//! pixel space and graph space.

use vstd::prelude::*;
use crate::frac::{Frac, Rat, rat_add, rat_div, rat_eq, rat_mul, rat_sub, fits_i128};
use crate::frac::{
    lemma_add_congruence, lemma_add_sub_cancel, lemma_div_congruence, lemma_div_mul_cancel,
    lemma_mul_congruence, lemma_mul_div_cancel, lemma_nonzero_mul, lemma_rat_eq_trans,
    lemma_sub_add_cancel,
};

verus! {

/// A coordinate pair; which space it lives in is decided by context.
#[derive(Clone, Copy, Debug)]
pub struct Point {
    pub x: Frac,
    pub y: Frac,
}

/// An axis-aligned rectangle with positive width and height.
#[derive(Clone, Copy, Debug)]
pub struct Rect {
    pub x: Frac,
    pub y: Frac,
    pub w: Frac,
    pub h: Frac,
}

impl Point {
    pub open spec fn wf(self) -> bool {
        self.x.wf() && self.y.wf()
    }
}

impl Rect {
    /// Non-degenerate: positive width and height.
    pub open spec fn wf(self) -> bool {
        self.x.wf() && self.y.wf() && self.w.wf() && self.h.wf() && self.w@.num > 0
            && self.h@.num > 0
    }
}

/// Linear interpolation of one coordinate from a source interval
/// `(sx, sw)` into a destination interval `(dx, dw)`:
/// `(v - sx) / sw * dw + dx`.
pub open spec fn rat_map1(v: Rat, sx: Rat, sw: Rat, dx: Rat, dw: Rat) -> Rat {
    rat_add(rat_mul(rat_div(rat_sub(v, sx), sw), dw), dx)
}

/// All products that the executable mapper forms for one axis fit in
/// an `i128` word.
pub open spec fn map1_fits(v: Rat, sx: Rat, sw: Rat, dx: Rat, dw: Rat) -> bool {
    let u = rat_sub(v, sx);
    let q = rat_div(u, sw);
    let m = rat_mul(q, dw);
    fits_i128(v.num * sx.den) && fits_i128(sx.num * v.den) && fits_i128(u.num) && fits_i128(
        u.den,
    ) && fits_i128(u.num * sw.den) && fits_i128(u.den * sw.num) && fits_i128(q.num * dw.num)
        && fits_i128(q.den * dw.den) && fits_i128(m.num * dx.den) && fits_i128(dx.num * m.den)
        && fits_i128(m.num * dx.den + dx.num * m.den) && fits_i128(m.den * dx.den)
}

impl Rect {
    /// Maps a point of this rectangle to its linearly-interpolated
    /// position in the rectangle `c1`; both axes are independent and
    /// the result is exact.
    pub fn map_point(&self, p: &Point, c1: &Rect) -> (r: Point)
        requires
            self.wf(),
            p.wf(),
            c1.wf(),
            map1_fits(p.x@, self.x@, self.w@, c1.x@, c1.w@),
            map1_fits(p.y@, self.y@, self.h@, c1.y@, c1.h@),
        ensures
            r.wf(),
            r.x@ == rat_map1(p.x@, self.x@, self.w@, c1.x@, c1.w@),
            r.y@ == rat_map1(p.y@, self.y@, self.h@, c1.y@, c1.h@),
    {
        let rx = p.x.sub(&self.x).div(&self.w).mul(&c1.w).add(&c1.x);
        let ry = p.y.sub(&self.y).div(&self.h).mul(&c1.h).add(&c1.y);
        Point { x: rx, y: ry }
    }
}

/// Mapping a coordinate from rectangle `b` back into rectangle `a` and
/// then from `a` into `b` again returns the original value, for any
/// non-degenerate pair of intervals.
pub proof fn lemma_map1_round_trip(v: Rat, ax: Rat, aw: Rat, bx: Rat, bw: Rat)
    requires
        v.den > 0,
        ax.den > 0,
        aw.den > 0,
        bx.den > 0,
        bw.den > 0,
        aw.num != 0,
        bw.num != 0,
    ensures
        rat_eq(rat_map1(rat_map1(v, ax, aw, bx, bw), bx, bw, ax, aw), v),
{
    let u1 = rat_sub(v, ax);
    let q1 = rat_div(u1, aw);
    let m1 = rat_mul(q1, bw);
    let o1 = rat_add(m1, bx);
    let u2 = rat_sub(o1, bx);
    let q2 = rat_div(u2, bw);
    let m2 = rat_mul(q2, aw);
    let o2 = rat_add(m2, ax);
    // denominators of every intermediate are nonzero
    lemma_nonzero_mul(v.den, ax.den);
    lemma_nonzero_mul(u1.den, aw.num);
    lemma_nonzero_mul(q1.den, bw.den);
    lemma_nonzero_mul(m1.den, bx.den);
    lemma_nonzero_mul(o1.den, bx.den);
    lemma_nonzero_mul(u2.den, bw.num);
    lemma_nonzero_mul(m1.den, bw.num);
    // peel the outer map: subtracting bx undoes adding bx
    lemma_sub_add_cancel(m1, bx);
    lemma_div_congruence(u2, m1, bw);
    lemma_div_mul_cancel(q1, bw);
    lemma_rat_eq_trans(q2, rat_div(m1, bw), q1);
    // multiplying by aw undoes the division by aw
    lemma_mul_congruence(q2, q1, aw);
    lemma_mul_div_cancel(u1, aw);
    lemma_nonzero_mul(q2.den, aw.den);
    lemma_nonzero_mul(q1.den, aw.den);
    lemma_rat_eq_trans(m2, rat_mul(q1, aw), u1);
    // adding ax undoes the subtraction of ax
    lemma_add_congruence(m2, u1, ax);
    lemma_add_sub_cancel(v, ax);
    lemma_nonzero_mul(m2.den, ax.den);
    lemma_nonzero_mul(u1.den, ax.den);
    lemma_rat_eq_trans(o2, rat_add(u1, ax), v);
}

/// The round trip of the full point mapper: mapping a point from
/// rectangle `b` into `a` and back into `b` yields the original
/// coordinates, on both axes.
pub proof fn lemma_map_round_trip(p: Point, a: Rect, b: Rect)
    requires
        p.wf(),
        a.wf(),
        b.wf(),
    ensures
        rat_eq(
            rat_map1(rat_map1(p.x@, b.x@, b.w@, a.x@, a.w@), a.x@, a.w@, b.x@, b.w@),
            p.x@,
        ),
        rat_eq(
            rat_map1(rat_map1(p.y@, b.y@, b.h@, a.y@, a.h@), a.y@, a.h@, b.y@, b.h@),
            p.y@,
        ),
{
    lemma_map1_round_trip(p.x@, b.x@, b.w@, a.x@, a.w@);
    lemma_map1_round_trip(p.y@, b.y@, b.h@, a.y@, a.h@);
}

} // verus!
