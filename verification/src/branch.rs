//! Angular-branch enumeration.
//!
//! Polar angle and signed radius are multi-valued at a Cartesian point:
//! the angle is only fixed up to full turns, and a negative radius with
//! a half-turn rotation names the same point. For every turn index in
//! the configured range the builder yields two branches, one per radius
//! sign. A branch records the discrete structure only — which turn
//! index, which radius sign, and how many half turns the angle is
//! shifted by — so the caller can bind the polar variables
//! `r = ±r0` and `t = t0 + turns·τ + half_turns·τ/2` from it.

use vstd::prelude::*;

verus! {

/// One angular sheet at a point.
///
/// `r_positive` selects the sign of the radius variable; `turns` is the
/// full-turn index `n`; `half_turns` is `0` for the positive radius and
/// `±1` for the negative radius, where the sign keeps the branch
/// continuous near a base angle of zero: `-1` when the base angle is
/// non-negative, `+1` otherwise. (The choice at exactly zero is a
/// pinned convention, not a meaningful one.)
#[derive(Clone, Copy, Debug, PartialEq, Eq, Structural)]
pub struct Branch {
    pub r_positive: bool,
    pub turns: i64,
    pub half_turns: i64,
}

/// The branch that `make_contexts` puts at position `2*k` (positive
/// radius) or `2*k + 1` (negative radius) for turn index `n`.
pub open spec fn spec_branch(n: int, positive: bool, t0_nonneg: bool) -> Branch {
    Branch {
        r_positive: positive,
        turns: n as i64,
        half_turns: if positive {
            0i64
        } else if t0_nonneg {
            -1i64
        } else {
            1i64
        },
    }
}

/// Enumerates every evaluation branch for the normalized turn range
/// `[t_min, t_max)`: two branches per turn index, positive radius
/// first. `t0_nonneg` tells whether the base angle at the point is
/// non-negative, which fixes the half-turn direction of the
/// negative-radius branches.
pub fn make_contexts(t_min: i64, t_max: i64, t0_nonneg: bool) -> (r: Vec<Branch>)
    requires
        t_min <= t_max,
        2 * (t_max - t_min) <= usize::MAX,
    ensures
        r@.len() == 2 * (t_max - t_min),
        forall|i: int|
            0 <= i < r@.len() ==> #[trigger] r@[i] == spec_branch(
                t_min + i / 2,
                i % 2 == 0,
                t0_nonneg,
            ),
{
    let mut r: Vec<Branch> = Vec::new();
    let mut n: i64 = t_min;
    while n < t_max
        invariant
            t_min <= n <= t_max,
            2 * (t_max - t_min) <= usize::MAX,
            r@.len() == 2 * (n - t_min),
            forall|i: int|
                0 <= i < r@.len() ==> #[trigger] r@[i] == spec_branch(
                    t_min + i / 2,
                    i % 2 == 0,
                    t0_nonneg,
                ),
        decreases t_max - n,
    {
        let half: i64 = if t0_nonneg {
            -1
        } else {
            1
        };
        r.push(Branch { r_positive: true, turns: n, half_turns: 0 });
        r.push(Branch { r_positive: false, turns: n, half_turns: half });
        n = n + 1;
    }
    r
}

} // verus!
