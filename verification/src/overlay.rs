//! Axis and grid overlay metrics: intensity contributions near the
//! coordinate axes and near grid lines, as pure functions of a
//! graph-space point in fixed-point coordinates.

use vstd::prelude::*;

verus! {

/// Peak intensity of the axis lines.
pub const AXIS_INTENSITY: u8 = 255;

/// Peak intensity of the grid lines; lower than the axes'.
pub const GRID_INTENSITY: u8 = 102;

/// Magnitude bound for overlay arguments, far above any value the
/// renderer produces but small enough that sums cannot overflow.
pub const OVERLAY_BOUND: i64 = 0x2000_0000_0000_0000;

/// A graph-space point in fixed point (components scaled by
/// `diff::SCALE`).
#[derive(Clone, Copy, Debug, PartialEq, Eq, Structural)]
pub struct FxPoint {
    pub x: i64,
    pub y: i64,
}

impl FxPoint {
    pub open spec fn in_bounds(self) -> bool {
        -OVERLAY_BOUND <= self.x <= OVERLAY_BOUND && -OVERLAY_BOUND <= self.y <= OVERLAY_BOUND
    }
}

/// The axis contribution at a point: full intensity within one pixel
/// radius of either coordinate axis, zero beyond. It does not depend
/// on the grid configuration.
pub open spec fn spec_axis_diff(x: int, y: int, pix_r: int) -> int {
    if -pix_r < x < pix_r || -pix_r < y < pix_r {
        AXIS_INTENSITY as int
    } else {
        0
    }
}

/// The grid contribution at a point: `GRID_INTENSITY` within one pixel
/// radius of a grid line spaced every `grid` units on either axis, and
/// zero everywhere when the grid spacing is zero (grid disabled).
pub open spec fn spec_grid_diff(x: int, y: int, pix_r: int, grid: int) -> int {
    if grid <= 0 {
        0
    } else if (x + pix_r) % grid < 2 * pix_r || (y + pix_r) % grid < 2 * pix_r {
        GRID_INTENSITY as int
    } else {
        0
    }
}

/// Intensity of the coordinate axes at `p`: nonzero exactly within one
/// pixel radius of `x = 0` or `y = 0`.
pub fn axis_diff(p: &FxPoint, pix_r: i64) -> (r: u8)
    requires
        p.in_bounds(),
        0 <= pix_r <= OVERLAY_BOUND,
    ensures
        r as int == spec_axis_diff(p.x as int, p.y as int, pix_r as int),
{
    if (-pix_r < p.x && p.x < pix_r) || (-pix_r < p.y && p.y < pix_r) {
        AXIS_INTENSITY
    } else {
        0
    }
}

/// Intensity of the grid lines at `p`: nonzero exactly within one
/// pixel radius of a multiple of `grid` on either axis, and always
/// zero when `grid` is zero, leaving the axis contribution unaffected.
pub fn grid_diff(p: &FxPoint, pix_r: i64, grid: i64) -> (r: u8)
    requires
        p.in_bounds(),
        0 <= pix_r <= OVERLAY_BOUND,
        0 <= grid <= OVERLAY_BOUND,
    ensures
        r as int == spec_grid_diff(p.x as int, p.y as int, pix_r as int, grid as int),
        grid == 0 ==> r == 0,
{
    if grid == 0 {
        return 0;
    }
    let mx: i64 = (p.x + pix_r).checked_rem_euclid(grid).unwrap();
    let my: i64 = (p.y + pix_r).checked_rem_euclid(grid).unwrap();
    if mx < 2 * pix_r || my < 2 * pix_r {
        GRID_INTENSITY
    } else {
        0
    }
}

} // verus!
