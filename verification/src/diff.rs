//! The difference metric: from a pair of (possibly multi-valued)
//! complex evaluations to one bounded intensity per plot and pixel.
//!
//! Complex values arrive in fixed point: a component `v` stands for the
//! real number `v / SCALE`. The squared disagreement of one value pair
//! is an exact rational; the minimum over the cross product of the two
//! value sets is taken (the plot is satisfied if any combination of
//! multi-valued results agrees), and the minimum over a pixel's
//! branches feeds a monotonically decreasing bounded intensity
//! function.

use vstd::prelude::*;
use crate::frac::{Frac, Rat, rat_le, fits_i128};

verus! {

/// Fixed-point scale: a stored component `v` denotes `v / SCALE`.
pub const SCALE: i64 = 1048576;

/// Magnitude bound on incoming complex components (callers clamp to
/// it); keeps every product of the metric inside an `i128` word.
pub const EVAL_BOUND: i64 = 1073741824;

/// A complex number in fixed point.
#[derive(Clone, Copy, Debug, PartialEq, Eq, Structural)]
pub struct Cx {
    pub re: i64,
    pub im: i64,
}

impl Cx {
    /// Within the metric's admissible magnitude.
    pub open spec fn in_bounds(self) -> bool {
        -EVAL_BOUND <= self.re <= EVAL_BOUND && -EVAL_BOUND <= self.im <= EVAL_BOUND
    }
}

/// Bound on the numerator and denominator of any squared distance
/// built from admissible components: `8 * EVAL_BOUND^2`.
pub open spec fn dist_bound() -> int {
    8 * (EVAL_BOUND as int) * (EVAL_BOUND as int)
}

/// A valid squared distance: non-negative, with positive denominator,
/// and small enough that cross-multiplied comparisons fit in `i128`.
pub open spec fn dist_wf(d: Rat) -> bool {
    0 <= d.num <= dist_bound() && 0 < d.den <= dist_bound()
}

/// The squared disagreement of one left/right value pair, as an exact
/// rational in graph units. Plain mode: `|l - r|^2`. Proportional mode
/// (the default): `|l - r|^2 / |l + r|^2`, which is undefined — no
/// disagreement contribution — when `l + r = 0`.
pub open spec fn spec_pair_dist_sq(l: Cx, r: Cx, plain: bool) -> Option<Rat> {
    let dn = (l.re - r.re) * (l.re - r.re) + (l.im - r.im) * (l.im - r.im);
    if plain {
        Some(Rat { num: dn, den: (SCALE as int) * (SCALE as int) })
    } else {
        let sn = (l.re + r.re) * (l.re + r.re) + (l.im + r.im) * (l.im + r.im);
        if sn == 0 {
            None
        } else {
            Some(Rat { num: dn, den: sn })
        }
    }
}

/// The square of a number bounded by `m` is at most `m * m`.
proof fn lemma_square_bound(x: int, m: int)
    by (nonlinear_arith)
    requires
        -m <= x <= m,
        0 <= m,
    ensures
        0 <= x * x <= m * m,
{
}

/// A defined pair distance is a valid `dist_wf` rational.
proof fn lemma_pair_dist_wf(l: Cx, r: Cx, plain: bool)
    requires
        l.in_bounds(),
        r.in_bounds(),
        spec_pair_dist_sq(l, r, plain) is Some,
    ensures
        dist_wf(spec_pair_dist_sq(l, r, plain)->Some_0),
{
    let b = EVAL_BOUND as int;
    lemma_square_bound(l.re - r.re, 2 * b);
    lemma_square_bound(l.im - r.im, 2 * b);
    lemma_square_bound(l.re + r.re, 2 * b);
    lemma_square_bound(l.im + r.im, 2 * b);
    assert((2 * b) * (2 * b) == 4 * b * b) by (nonlinear_arith);
    assert((SCALE as int) * (SCALE as int) <= 8 * b * b);
}

/// Cross-multiplied comparisons of two valid distances fit in `i128`.
proof fn lemma_dist_cmp_fits(a: Rat, b: Rat)
    requires
        dist_wf(a),
        dist_wf(b),
    ensures
        fits_i128(a.num * b.den),
        fits_i128(b.num * a.den),
{
    vstd::arithmetic::mul::lemma_mul_upper_bound(a.num, dist_bound(), b.den, dist_bound());
    vstd::arithmetic::mul::lemma_mul_upper_bound(b.num, dist_bound(), a.den, dist_bound());
    vstd::arithmetic::mul::lemma_mul_nonnegative(a.num, b.den);
    vstd::arithmetic::mul::lemma_mul_nonnegative(b.num, a.den);
}

/// Exactly equal evaluations have squared disagreement zero whenever
/// it is defined at all; in plain mode it always is.
pub proof fn lemma_equal_values_zero_distance(l: Cx, plain: bool)
    ensures
        spec_pair_dist_sq(l, l, plain) is Some ==> spec_pair_dist_sq(l, l, plain)->Some_0.num
            == 0,
        plain ==> spec_pair_dist_sq(l, l, plain) is Some,
{
}

/// Computes the squared disagreement of one value pair.
pub fn pair_dist_sq(l: &Cx, r: &Cx, plain: bool) -> (res: Option<Frac>)
    requires
        l.in_bounds(),
        r.in_bounds(),
    ensures
        res is Some <==> spec_pair_dist_sq(*l, *r, plain) is Some,
        res is Some ==> res->Some_0@ == spec_pair_dist_sq(*l, *r, plain)->Some_0,
        res is Some ==> res->Some_0.wf() && dist_wf(res->Some_0@),
{
    proof {
        let b = EVAL_BOUND as int;
        lemma_square_bound(l.re - r.re, 2 * b);
        lemma_square_bound(l.im - r.im, 2 * b);
        lemma_square_bound(l.re + r.re, 2 * b);
        lemma_square_bound(l.im + r.im, 2 * b);
        assert((2 * b) * (2 * b) == 4 * b * b) by (nonlinear_arith);
    }
    let dre: i128 = l.re as i128 - r.re as i128;
    let dim: i128 = l.im as i128 - r.im as i128;
    let dn: i128 = dre * dre + dim * dim;
    if plain {
        proof {
            lemma_pair_dist_wf(*l, *r, plain);
        }
        Some(Frac { num: dn, den: SCALE as i128 * SCALE as i128 })
    } else {
        let sre: i128 = l.re as i128 + r.re as i128;
        let sim: i128 = l.im as i128 + r.im as i128;
        let sn: i128 = sre * sre + sim * sim;
        if sn == 0 {
            None
        } else {
            proof {
                lemma_pair_dist_wf(*l, *r, plain);
                lemma_square_bound(sre as int, 2 * EVAL_BOUND as int);
                lemma_square_bound(sim as int, 2 * EVAL_BOUND as int);
            }
            Some(Frac { num: dn, den: sn })
        }
    }
}

/// The minimum squared disagreement over the cross product of the two
/// result sets: `None` when no pair has a defined distance (then the
/// pixel gets no contribution from this branch), otherwise the least
/// defined pair distance.
pub fn min_dist_sq(lhs: &Vec<Cx>, rhs: &Vec<Cx>, plain: bool) -> (res: Option<Frac>)
    requires
        forall|i: int| 0 <= i < lhs@.len() ==> (#[trigger] lhs@[i]).in_bounds(),
        forall|j: int| 0 <= j < rhs@.len() ==> (#[trigger] rhs@[j]).in_bounds(),
    ensures
        res is None ==> forall|i: int, j: int|
            0 <= i < lhs@.len() && 0 <= j < rhs@.len() ==> #[trigger] spec_pair_dist_sq(
                lhs@[i],
                rhs@[j],
                plain,
            ) is None,
        res is Some ==> exists|i: int, j: int|
            0 <= i < lhs@.len() && 0 <= j < rhs@.len() && #[trigger] spec_pair_dist_sq(
                lhs@[i],
                rhs@[j],
                plain,
            ) == Some(res->Some_0@),
        res is Some ==> forall|i: int, j: int|
            0 <= i < lhs@.len() && 0 <= j < rhs@.len() && #[trigger] spec_pair_dist_sq(
                lhs@[i],
                rhs@[j],
                plain,
            ) is Some ==> rat_le(res->Some_0@, spec_pair_dist_sq(lhs@[i], rhs@[j], plain)->Some_0),
        res is Some ==> res->Some_0.wf() && dist_wf(res->Some_0@),
{
    let mut best: Option<Frac> = None;
    let mut i: usize = 0;
    while i < lhs.len()
        invariant
            i <= lhs@.len(),
            forall|k: int| 0 <= k < lhs@.len() ==> (#[trigger] lhs@[k]).in_bounds(),
            forall|k: int| 0 <= k < rhs@.len() ==> (#[trigger] rhs@[k]).in_bounds(),
            best is None ==> forall|a: int, b: int|
                0 <= a < i && 0 <= b < rhs@.len() ==> #[trigger] spec_pair_dist_sq(
                    lhs@[a],
                    rhs@[b],
                    plain,
                ) is None,
            best is Some ==> exists|a: int, b: int|
                0 <= a < i && 0 <= b < rhs@.len() && #[trigger] spec_pair_dist_sq(
                    lhs@[a],
                    rhs@[b],
                    plain,
                ) == Some(best->Some_0@),
            best is Some ==> forall|a: int, b: int|
                0 <= a < i && 0 <= b < rhs@.len() && #[trigger] spec_pair_dist_sq(
                    lhs@[a],
                    rhs@[b],
                    plain,
                ) is Some ==> rat_le(best->Some_0@, spec_pair_dist_sq(lhs@[a], rhs@[b], plain)->Some_0),
            best is Some ==> best->Some_0.wf() && dist_wf(best->Some_0@),
        decreases lhs@.len() - i,
    {
        let mut j: usize = 0;
        while j < rhs.len()
            invariant
                i < lhs@.len(),
                j <= rhs@.len(),
                forall|k: int| 0 <= k < lhs@.len() ==> (#[trigger] lhs@[k]).in_bounds(),
                forall|k: int| 0 <= k < rhs@.len() ==> (#[trigger] rhs@[k]).in_bounds(),
                best is None ==> forall|a: int, b: int|
                    (0 <= a < i && 0 <= b < rhs@.len() || a == i && 0 <= b < j)
                        ==> #[trigger] spec_pair_dist_sq(lhs@[a], rhs@[b], plain) is None,
                best is Some ==> exists|a: int, b: int|
                    (0 <= a < i && 0 <= b < rhs@.len() || a == i && 0 <= b < j)
                        && #[trigger] spec_pair_dist_sq(lhs@[a], rhs@[b], plain) == Some(
                        best->Some_0@,
                    ),
                best is Some ==> forall|a: int, b: int|
                    (0 <= a < i && 0 <= b < rhs@.len() || a == i && 0 <= b < j)
                        && #[trigger] spec_pair_dist_sq(lhs@[a], rhs@[b], plain) is Some
                        ==> rat_le(
                        best->Some_0@,
                        spec_pair_dist_sq(lhs@[a], rhs@[b], plain)->Some_0,
                    ),
                best is Some ==> best->Some_0.wf() && dist_wf(best->Some_0@),
            decreases rhs@.len() - j,
        {
            let cand = pair_dist_sq(&lhs[i], &rhs[j], plain);
            let ghost prev = best;
            match (cand, best) {
                (Some(c), Some(b)) => {
                    proof {
                        lemma_dist_cmp_fits(c@, b@);
                    }
                    if c.le_value(&b) {
                        best = Some(c);
                        proof {
                            assert forall|a: int, bb: int|
                                (0 <= a < i && 0 <= bb < rhs@.len() || a == i && 0 <= bb < j + 1)
                                    && #[trigger] spec_pair_dist_sq(
                                    lhs@[a],
                                    rhs@[bb],
                                    plain,
                                ) is Some implies rat_le(
                                c@,
                                spec_pair_dist_sq(lhs@[a], rhs@[bb], plain)->Some_0,
                            ) by {
                                if a < i || bb < j {
                                    lemma_pair_dist_wf(lhs@[a], rhs@[bb], plain);
                                    crate::frac::lemma_rat_le_trans(
                                        c@,
                                        b@,
                                        spec_pair_dist_sq(lhs@[a], rhs@[bb], plain)->Some_0,
                                    );
                                }
                            }
                        }
                    }
                },
                (Some(c), None) => {
                    best = Some(c);
                },
                (None, _) => {},
            }
            proof {
                if cand is Some {
                    assert(spec_pair_dist_sq(lhs@[i as int], rhs@[j as int], plain) == Some(
                        cand->Some_0@,
                    ));
                }
            }
            j = j + 1;
        }
        i = i + 1;
    }
    best
}

/// Bound on the sharpness factor's components.
pub const SHARP_BOUND: i64 = 1048576;

/// A valid sharpness factor: the square of the configured sharpness
/// constant, as a positive rational with bounded components.
pub open spec fn sharp_wf(k: Rat) -> bool {
    0 < k.num <= SHARP_BOUND && 0 < k.den <= SHARP_BOUND
}

/// The intensity of a squared distance `d` under the squared sharpness
/// factor `k`: the integer part of `255 / (1 + d * k)`, which realizes
/// the bounded function `255 / (1 + (distance * sharpness)^2)`.
pub open spec fn spec_intensity(d: Rat, k: Rat) -> int {
    255 * (d.den * k.den) / (d.den * k.den + d.num * k.num)
}

/// The intensity of an optional squared distance: an undefined distance
/// contributes nothing.
pub open spec fn spec_intensity_opt(d: Option<Rat>, k: Rat) -> int {
    match d {
        Some(dd) => spec_intensity(dd, k),
        None => 0,
    }
}

/// Converts the minimum squared disagreement of a branch into a pixel
/// intensity: maximal (255) at distance zero, decreasing in the
/// distance, zero for an undefined distance.
pub fn intensity(d: &Option<Frac>, k: &Frac) -> (r: u8)
    requires
        k.wf(),
        sharp_wf(k@),
        d is Some ==> d->Some_0.wf() && dist_wf(d->Some_0@),
    ensures
        r as int == spec_intensity_opt(
            match *d {
                Some(f) => Some(f@),
                None => None,
            },
            k@,
        ),
        d is Some && d->Some_0@.num == 0 ==> r == 255,
{
    match d {
        None => 0,
        Some(f) => {
            proof {
                lemma_intensity_range(f@, k@);
                assert(0 < f@.den * k@.den <= dist_bound() * SHARP_BOUND as int) by (
                nonlinear_arith)
                    requires
                        0 < f@.den <= dist_bound(),
                        0 < k@.den <= SHARP_BOUND as int,
                ;
                assert(0 <= f@.num * k@.num <= dist_bound() * SHARP_BOUND as int) by (
                nonlinear_arith)
                    requires
                        0 <= f@.num <= dist_bound(),
                        0 < k@.num <= SHARP_BOUND as int,
                ;
            }
            let x: i128 = f.den * k.den;
            let y: i128 = f.num * k.num;
            let v: u128 = (255u128 * (x as u128)) / ((x as u128) + (y as u128));
            assert(v as int == spec_intensity(f@, k@));
            v as u8
        },
    }
}

/// `0 <= spec_intensity(d, k) <= 255`, and it is 255 exactly at
/// distance zero.
pub proof fn lemma_intensity_range(d: Rat, k: Rat)
    requires
        dist_wf(d),
        sharp_wf(k),
    ensures
        0 <= spec_intensity(d, k) <= 255,
        d.num == 0 ==> spec_intensity(d, k) == 255,
{
    let x = d.den * k.den;
    let y = d.num * k.num;
    assert(d.den * k.den > 0) by (nonlinear_arith)
        requires
            d.den > 0,
            k.den > 0,
    ;
    assert(d.num * k.num >= 0) by (nonlinear_arith)
        requires
            d.num >= 0,
            k.num > 0,
    ;
    vstd::arithmetic::div_mod::lemma_div_pos_is_pos(255 * x, x + y);
    vstd::arithmetic::div_mod::lemma_div_is_ordered(255 * x, 255 * (x + y), x + y);
    vstd::arithmetic::div_mod::lemma_div_multiples_vanish(255, x + y);
    if d.num == 0 {
        assert(y == 0) by (nonlinear_arith)
            requires
                d.num == 0,
                y == d.num * k.num,
        ;
        vstd::arithmetic::div_mod::lemma_div_multiples_vanish(255, x);
        assert(255 * x / (x + y) == 255);
    }
}

/// Floor-division comparison: if `a/b <= c/d` holds of the real
/// quotients (cross-multiplied), it holds of the integer quotients.
proof fn lemma_div_common(a: int, b: int, c: int, d: int)
    requires
        0 <= a,
        0 < b,
        0 <= c,
        0 < d,
        a * d <= c * b,
    ensures
        a / b <= c / d,
{
    vstd::arithmetic::div_mod::lemma_div_multiples_vanish_quotient(d, a, b);
    vstd::arithmetic::div_mod::lemma_div_multiples_vanish_quotient(b, c, d);
    vstd::arithmetic::mul::lemma_mul_is_commutative(d, a);
    vstd::arithmetic::mul::lemma_mul_is_commutative(b, c);
    vstd::arithmetic::mul::lemma_mul_is_commutative(d, b);
    vstd::arithmetic::div_mod::lemma_div_is_ordered(a * d, c * b, b * d);
}

/// The intensity function is monotonically decreasing in the squared
/// distance: a smaller disagreement never renders less intensely.
pub proof fn lemma_intensity_monotone(d1: Rat, d2: Rat, k: Rat)
    requires
        dist_wf(d1),
        dist_wf(d2),
        sharp_wf(k),
        rat_le(d1, d2),
    ensures
        spec_intensity(d2, k) <= spec_intensity(d1, k),
{
    let x1 = d1.den * k.den;
    let y1 = d1.num * k.num;
    let x2 = d2.den * k.den;
    let y2 = d2.num * k.num;
    assert(d1.den * k.den > 0) by (nonlinear_arith)
        requires
            d1.den > 0,
            k.den > 0,
    ;
    assert(d2.den * k.den > 0) by (nonlinear_arith)
        requires
            d2.den > 0,
            k.den > 0,
    ;
    assert(d1.num * k.num >= 0) by (nonlinear_arith)
        requires
            d1.num >= 0,
            k.num > 0,
    ;
    assert(d2.num * k.num >= 0) by (nonlinear_arith)
        requires
            d2.num >= 0,
            k.num > 0,
    ;
    vstd::arithmetic::mul::lemma_mul_nonnegative(k.num, k.den);
    vstd::arithmetic::mul::lemma_mul_inequality(
        d1.num * d2.den,
        d2.num * d1.den,
        k.num * k.den,
    );
    crate::frac::lemma_mul_shuffle4(d1.num, d2.den, k.num, k.den);
    crate::frac::lemma_mul_shuffle4(d2.num, d1.den, k.num, k.den);
    assert((d1.num * k.num) * (d2.den * k.den) <= (d2.num * k.num) * (d1.den * k.den));
    assert(y1 * x2 <= y2 * x1);
    // (255 x2)(x1 + y1) <= (255 x1)(x2 + y2), expanded term by term
    vstd::arithmetic::mul::lemma_mul_is_distributive_add(255 * x2, x1, y1);
    vstd::arithmetic::mul::lemma_mul_is_distributive_add(255 * x1, x2, y2);
    vstd::arithmetic::mul::lemma_mul_is_associative(255, x2, y1);
    vstd::arithmetic::mul::lemma_mul_is_associative(255, x1, y2);
    vstd::arithmetic::mul::lemma_mul_is_associative(255, x2, x1);
    vstd::arithmetic::mul::lemma_mul_is_associative(255, x1, x2);
    vstd::arithmetic::mul::lemma_mul_is_commutative(x2, x1);
    vstd::arithmetic::mul::lemma_mul_is_commutative(y1, x2);
    vstd::arithmetic::mul::lemma_mul_is_commutative(y2, x1);
    vstd::arithmetic::mul::lemma_mul_inequality(x2 * y1, x1 * y2, 255);
    vstd::arithmetic::mul::lemma_mul_is_commutative(x2 * y1, 255);
    vstd::arithmetic::mul::lemma_mul_is_commutative(x1 * y2, 255);
    assert((255 * x2) * (x1 + y1) <= (255 * x1) * (x2 + y2));
    lemma_div_common(255 * x2, x2 + y2, 255 * x1, x1 + y1);
}

/// The intensity function vanishes for large disagreements: as soon as
/// the scaled squared distance `d * k` reaches 255, the intensity is
/// exactly zero (and by `lemma_intensity_monotone` it stays zero
/// beyond).
pub proof fn lemma_intensity_vanishes(d: Rat, k: Rat)
    requires
        dist_wf(d),
        sharp_wf(k),
        d.num * k.num >= 255 * (d.den * k.den),
    ensures
        spec_intensity(d, k) == 0,
{
    assert(d.den * k.den > 0) by (nonlinear_arith)
        requires
            d.den > 0,
            k.den > 0,
    ;
    vstd::arithmetic::div_mod::lemma_basic_div(
        255 * (d.den * k.den),
        d.den * k.den + d.num * k.num,
    );
}

/// Whether the pair `(i, j)` of the two result sets has a defined
/// squared disagreement.
pub open spec fn pair_defined(lhs: Seq<Cx>, rhs: Seq<Cx>, plain: bool, i: int, j: int) -> bool {
    0 <= i < lhs.len() && 0 <= j < rhs.len() && spec_pair_dist_sq(lhs[i], rhs[j], plain) is Some
}

/// The intensity of the pair `(i, j)` under sharpness `k`.
pub open spec fn pair_intensity(
    lhs: Seq<Cx>,
    rhs: Seq<Cx>,
    plain: bool,
    i: int,
    j: int,
    k: Rat,
) -> int {
    spec_intensity(spec_pair_dist_sq(lhs[i], rhs[j], plain)->Some_0, k)
}

/// The intensity one branch contributes for one plot: the intensity of
/// the minimum disagreement over the cross product of the two result
/// sets — equivalently, since the intensity function is decreasing,
/// the greatest pair intensity — and zero when no pair has a defined
/// disagreement.
pub fn diff(lhs: &Vec<Cx>, rhs: &Vec<Cx>, plain: bool, k: &Frac) -> (r: u8)
    requires
        k.wf(),
        sharp_wf(k@),
        forall|i: int| 0 <= i < lhs@.len() ==> (#[trigger] lhs@[i]).in_bounds(),
        forall|j: int| 0 <= j < rhs@.len() ==> (#[trigger] rhs@[j]).in_bounds(),
    ensures
        forall|i: int, j: int|
            #[trigger] pair_defined(lhs@, rhs@, plain, i, j) ==> r as int >= pair_intensity(
                lhs@,
                rhs@,
                plain,
                i,
                j,
                k@,
            ),
        r == 0 || exists|i: int, j: int|
            #[trigger] pair_defined(lhs@, rhs@, plain, i, j) && r as int == pair_intensity(
                lhs@,
                rhs@,
                plain,
                i,
                j,
                k@,
            ),
        (forall|i: int, j: int| !(#[trigger] pair_defined(lhs@, rhs@, plain, i, j))) ==> r == 0,
{
    let m = min_dist_sq(lhs, rhs, plain);
    let r = intensity(&m, k);
    proof {
        match m {
            None => {},
            Some(f) => {
                assert forall|i: int, j: int|
                    #[trigger] pair_defined(lhs@, rhs@, plain, i, j) implies r as int
                    >= pair_intensity(lhs@, rhs@, plain, i, j, k@) by {
                    lemma_pair_dist_wf(lhs@[i], rhs@[j], plain);
                    lemma_intensity_monotone(
                        f@,
                        spec_pair_dist_sq(lhs@[i], rhs@[j], plain)->Some_0,
                        k@,
                    );
                }
                let (i, j) = choose|i: int, j: int|
                    0 <= i < lhs@.len() && 0 <= j < rhs@.len() && #[trigger] spec_pair_dist_sq(
                        lhs@[i],
                        rhs@[j],
                        plain,
                    ) == Some(f@);
                assert(pair_defined(lhs@, rhs@, plain, i, j));
            },
        }
    }
    r
}

} // verus!
