//! Exact rational arithmetic.
//!
//! The coordinate mapper and the difference metric are specified over
//! mathematical rationals (`Rat`, a ghost type with unbounded integer
//! components) and executed over `Frac`, whose components are `i128`.
//! Every executable operation returns the exact `Rat` result of its
//! operands; preconditions rule out overflow of the products involved.

use vstd::prelude::*;

verus! {

/// Ghost rational number `num / den`; meaningful whenever `den != 0`.
pub struct Rat {
    pub num: int,
    pub den: int,
}

/// Equality of the represented values (valid whenever denominators are
/// nonzero): cross multiplication.
pub open spec fn rat_eq(a: Rat, b: Rat) -> bool {
    a.num * b.den == b.num * a.den
}

/// `a <= b` on represented values; valid when both denominators are positive.
pub open spec fn rat_le(a: Rat, b: Rat) -> bool {
    a.num * b.den <= b.num * a.den
}

pub open spec fn rat_add(a: Rat, b: Rat) -> Rat {
    Rat { num: a.num * b.den + b.num * a.den, den: a.den * b.den }
}

pub open spec fn rat_sub(a: Rat, b: Rat) -> Rat {
    Rat { num: a.num * b.den - b.num * a.den, den: a.den * b.den }
}

pub open spec fn rat_mul(a: Rat, b: Rat) -> Rat {
    Rat { num: a.num * b.num, den: a.den * b.den }
}

/// Division; the result's denominator stays positive only when `b.num > 0`,
/// which is all the library ever divides by.
pub open spec fn rat_div(a: Rat, b: Rat) -> Rat {
    Rat { num: a.num * b.den, den: a.den * b.num }
}

/// An unbounded integer that a signed 128-bit word can hold.
pub open spec fn fits_i128(x: int) -> bool {
    i128::MIN <= x <= i128::MAX
}

/// Transitivity of value equality, for nonzero denominators.
pub proof fn lemma_rat_eq_trans(a: Rat, b: Rat, c: Rat)
    by (nonlinear_arith)
    requires
        a.den != 0,
        b.den != 0,
        c.den != 0,
        rat_eq(a, b),
        rat_eq(b, c),
    ensures
        rat_eq(a, c),
{
}

/// Transitivity of the value ordering, for positive denominators.
pub proof fn lemma_rat_le_trans(a: Rat, b: Rat, c: Rat)
    by (nonlinear_arith)
    requires
        a.den > 0,
        b.den > 0,
        c.den > 0,
        rat_le(a, b),
        rat_le(b, c),
    ensures
        rat_le(a, c),
{
}

/// A product of nonzero integers is nonzero.
pub proof fn lemma_nonzero_mul(x: int, y: int)
    by (nonlinear_arith)
    requires
        x != 0,
        y != 0,
    ensures
        x * y != 0,
{
}

/// Adding and then subtracting the same rational is the identity.
pub proof fn lemma_sub_add_cancel(m: Rat, c: Rat)
    by (nonlinear_arith)
    ensures
        rat_eq(rat_sub(rat_add(m, c), c), m),
{
}

/// Subtracting and then adding the same rational is the identity.
pub proof fn lemma_add_sub_cancel(v: Rat, c: Rat)
    by (nonlinear_arith)
    ensures
        rat_eq(rat_add(rat_sub(v, c), c), v),
{
}

/// Multiplying and then dividing by the same rational is the identity.
pub proof fn lemma_div_mul_cancel(q: Rat, w: Rat)
    by (nonlinear_arith)
    ensures
        rat_eq(rat_div(rat_mul(q, w), w), q),
{
}

/// Dividing and then multiplying by the same rational is the identity.
pub proof fn lemma_mul_div_cancel(u: Rat, w: Rat)
    by (nonlinear_arith)
    ensures
        rat_eq(rat_mul(rat_div(u, w), w), u),
{
}

/// Rebalancing a product of two products: the inner factors may swap.
pub proof fn lemma_mul_shuffle4(x: int, y: int, z: int, w: int)
    by (nonlinear_arith)
    ensures
        (x * y) * (z * w) == (x * z) * (y * w),
{
}

/// Addition respects value equality in its first argument.
pub proof fn lemma_add_congruence(a: Rat, b: Rat, c: Rat)
    requires
        rat_eq(a, b),
    ensures
        rat_eq(rat_add(a, c), rat_add(b, c)),
{
    vstd::arithmetic::mul::lemma_mul_is_distributive_add_other_way(
        b.den * c.den,
        a.num * c.den,
        c.num * a.den,
    );
    vstd::arithmetic::mul::lemma_mul_is_distributive_add_other_way(
        a.den * c.den,
        b.num * c.den,
        c.num * b.den,
    );
    lemma_mul_shuffle4(a.num, c.den, b.den, c.den);
    lemma_mul_shuffle4(b.num, c.den, a.den, c.den);
    lemma_mul_shuffle4(c.num, a.den, b.den, c.den);
    assert((a.num * b.den) * (c.den * c.den) == (b.num * a.den) * (c.den * c.den));
}

/// Multiplication respects value equality in its first argument.
pub proof fn lemma_mul_congruence(a: Rat, b: Rat, c: Rat)
    by (nonlinear_arith)
    requires
        rat_eq(a, b),
    ensures
        rat_eq(rat_mul(a, c), rat_mul(b, c)),
{
}

/// Division respects value equality in its first argument.
pub proof fn lemma_div_congruence(a: Rat, b: Rat, c: Rat)
    by (nonlinear_arith)
    requires
        rat_eq(a, b),
    ensures
        rat_eq(rat_div(a, c), rat_div(b, c)),
{
}

/// Executable rational number; `den` is always positive.
#[derive(Clone, Copy, Debug, PartialEq, Eq, Structural)]
pub struct Frac {
    pub num: i128,
    pub den: i128,
}

impl View for Frac {
    type V = Rat;

    open spec fn view(&self) -> Rat {
        Rat { num: self.num as int, den: self.den as int }
    }
}

impl Frac {
    pub open spec fn wf(self) -> bool {
        self.den > 0
    }

    /// Builds `num / den` from machine words.
    pub fn new(num: i64, den: i64) -> (r: Frac)
        requires
            den > 0,
        ensures
            r.wf(),
            r@.num == num as int,
            r@.den == den as int,
    {
        Frac { num: num as i128, den: den as i128 }
    }

    /// The integer `n` as a rational.
    pub fn from_int(n: i64) -> (r: Frac)
        ensures
            r.wf(),
            r@.num == n as int,
            r@.den == 1,
    {
        Frac { num: n as i128, den: 1 }
    }

    /// Exact sum.
    pub fn add(&self, b: &Frac) -> (r: Frac)
        requires
            self.wf(),
            b.wf(),
            fits_i128(self@.num * b@.den),
            fits_i128(b@.num * self@.den),
            fits_i128(self@.num * b@.den + b@.num * self@.den),
            fits_i128(self@.den * b@.den),
        ensures
            r.wf(),
            r@ == rat_add(self@, b@),
    {
        assert(self.den as int * b.den as int > 0) by (nonlinear_arith)
            requires
                self.den > 0,
                b.den > 0,
        ;
        Frac { num: self.num * b.den + b.num * self.den, den: self.den * b.den }
    }

    /// Exact difference.
    pub fn sub(&self, b: &Frac) -> (r: Frac)
        requires
            self.wf(),
            b.wf(),
            fits_i128(self@.num * b@.den),
            fits_i128(b@.num * self@.den),
            fits_i128(self@.num * b@.den - b@.num * self@.den),
            fits_i128(self@.den * b@.den),
        ensures
            r.wf(),
            r@ == rat_sub(self@, b@),
    {
        assert(self.den as int * b.den as int > 0) by (nonlinear_arith)
            requires
                self.den > 0,
                b.den > 0,
        ;
        Frac { num: self.num * b.den - b.num * self.den, den: self.den * b.den }
    }

    /// Exact product.
    pub fn mul(&self, b: &Frac) -> (r: Frac)
        requires
            self.wf(),
            b.wf(),
            fits_i128(self@.num * b@.num),
            fits_i128(self@.den * b@.den),
        ensures
            r.wf(),
            r@ == rat_mul(self@, b@),
    {
        assert(self.den as int * b.den as int > 0) by (nonlinear_arith)
            requires
                self.den > 0,
                b.den > 0,
        ;
        Frac { num: self.num * b.num, den: self.den * b.den }
    }

    /// Exact quotient by a positive rational.
    pub fn div(&self, b: &Frac) -> (r: Frac)
        requires
            self.wf(),
            b.wf(),
            b@.num > 0,
            fits_i128(self@.num * b@.den),
            fits_i128(self@.den * b@.num),
        ensures
            r.wf(),
            r@ == rat_div(self@, b@),
    {
        assert(self.den as int * b.num as int > 0) by (nonlinear_arith)
            requires
                self.den > 0,
                b.num > 0,
        ;
        Frac { num: self.num * b.den, den: self.den * b.num }
    }

    /// Value equality test.
    pub fn eq_value(&self, b: &Frac) -> (r: bool)
        requires
            self.wf(),
            b.wf(),
            fits_i128(self@.num * b@.den),
            fits_i128(b@.num * self@.den),
        ensures
            r == rat_eq(self@, b@),
    {
        self.num * b.den == b.num * self.den
    }

    /// Value ordering test.
    pub fn le_value(&self, b: &Frac) -> (r: bool)
        requires
            self.wf(),
            b.wf(),
            fits_i128(self@.num * b@.den),
            fits_i128(b@.num * self@.den),
        ensures
            r == rat_le(self@, b@),
    {
        self.num * b.den <= b.num * self.den
    }
}

} // verus!
