//! Pixel colors, channel masks, and the saturating compositor.
//!
//! Every pixel starts white. The axis/grid overlay and each plot darken
//! it by subtracting an intensity from some channels, saturating at
//! zero. A plot's 3-bit channel mask selects which channels it leaves
//! untouched: a set bit `c` protects channel `c` (0 red, 1 green,
//! 2 blue), a clear bit lets the plot darken that channel.

use vstd::prelude::*;

verus! {

/// A 3-channel 8-bit color; channel 0 is red, 1 green, 2 blue.
#[derive(Clone, Copy, Debug, PartialEq, Eq, Structural)]
pub struct Rgb {
    pub r: u8,
    pub g: u8,
    pub b: u8,
}

impl Rgb {
    /// The white background every pixel starts from.
    pub fn white() -> (c: Rgb)
        ensures
            c.r == 255 && c.g == 255 && c.b == 255,
    {
        Rgb { r: 255, g: 255, b: 255 }
    }
}

/// Whether channel `c` (0 red, 1 green, 2 blue) is protected by the
/// mask, i.e. bit `c` of the mask is set.
pub open spec fn mask_keeps(mask: u8, c: int) -> bool {
    if c == 0 {
        (mask as int) % 2 == 1
    } else if c == 1 {
        (mask as int / 2) % 2 == 1
    } else {
        (mask as int / 4) % 2 == 1
    }
}

/// Subtraction saturating at zero.
pub open spec fn spec_sub_sat(a: int, b: int) -> int {
    if a >= b {
        a - b
    } else {
        0
    }
}

/// One darkening step: subtracts `intensity` from every channel the
/// mask does not protect, saturating at zero.
pub open spec fn spec_apply(c: Rgb, mask: u8, intensity: u8) -> Rgb {
    Rgb {
        r: if mask_keeps(mask, 0) {
            c.r
        } else {
            spec_sub_sat(c.r as int, intensity as int) as u8
        },
        g: if mask_keeps(mask, 1) {
            c.g
        } else {
            spec_sub_sat(c.g as int, intensity as int) as u8
        },
        b: if mask_keeps(mask, 2) {
            c.b
        } else {
            spec_sub_sat(c.b as int, intensity as int) as u8
        },
    }
}

/// Darkens the unprotected channels of `c` by `intensity`, saturating
/// at zero: no channel ever wraps below zero, and a protected channel
/// is returned untouched.
pub fn apply_intensity(c: Rgb, mask: u8, intensity: u8) -> (r: Rgb)
    ensures
        r == spec_apply(c, mask, intensity),
{
    let keep_r: bool = mask % 2 == 1;
    let keep_g: bool = (mask / 2) % 2 == 1;
    let keep_b: bool = (mask / 4) % 2 == 1;
    Rgb {
        r: if keep_r {
            c.r
        } else if c.r >= intensity {
            c.r - intensity
        } else {
            0
        },
        g: if keep_g {
            c.g
        } else if c.g >= intensity {
            c.g - intensity
        } else {
            0
        },
        b: if keep_b {
            c.b
        } else if c.b >= intensity {
            c.b - intensity
        } else {
            0
        },
    }
}

/// Darkening steps commute: two plots (or a plot and the axis overlay)
/// may be applied in either order and leave the same color, because
/// per channel both orders yield the saturated difference of the sum.
pub proof fn lemma_apply_commutes(c: Rgb, m1: u8, i1: u8, m2: u8, i2: u8)
    ensures
        spec_apply(spec_apply(c, m1, i1), m2, i2) == spec_apply(spec_apply(c, m2, i2), m1, i1),
{
}

/// The channel mask of plot `index` among `count` plots: a single plot
/// protects only the red channel, so its line appears red; with
/// several plots, plot `i`'s mask is the complement of bit `i`, so it
/// darkens exactly channel `i` and overlaps mix subtractively in the
/// cyan/magenta/yellow family.
pub fn plot_color(count: usize, index: usize) -> (m: u8)
    requires
        1 <= count <= 3,
        index < count,
    ensures
        m == spec_plot_mask(count as int, index as int),
{
    if count == 1 {
        1
    } else if index == 0 {
        6
    } else if index == 1 {
        5
    } else {
        3
    }
}

/// The channel mask assigned to plot `index` among `count` plots.
pub open spec fn spec_plot_mask(count: int, index: int) -> u8 {
    if count == 1 {
        1u8
    } else if index == 0 {
        6u8
    } else if index == 1 {
        5u8
    } else {
        3u8
    }
}

/// Folds darkening steps over a color, front to back.
pub open spec fn spec_fold_plots(c: Rgb, plots: Seq<(u8, u8)>) -> Rgb
    decreases plots.len(),
{
    if plots.len() == 0 {
        c
    } else {
        spec_fold_plots(spec_apply(c, plots[0].0, plots[0].1), plots.subrange(1, plots.len() as int))
    }
}

/// The color of one pixel: white, darkened on all channels by the
/// axis/grid contribution, then darkened by every plot's masked
/// intensity in order. (By `lemma_apply_commutes` the order cannot
/// matter.)
pub open spec fn spec_composite(axisness: u8, plots: Seq<(u8, u8)>) -> Rgb {
    spec_fold_plots(spec_apply(Rgb { r: 255, g: 255, b: 255 }, 0, axisness), plots)
}

/// Composites one pixel from the axis/grid contribution and the
/// per-plot `(mask, intensity)` pairs.
pub fn composite_pixel(axisness: u8, plots: &Vec<(u8, u8)>) -> (r: Rgb)
    ensures
        r == spec_composite(axisness, plots@),
{
    let mut c = apply_intensity(Rgb { r: 255, g: 255, b: 255 }, 0, axisness);
    let ghost c0 = c;
    proof {
        assert(plots@.subrange(0, plots@.len() as int) =~= plots@);
    }
    let mut i: usize = 0;
    while i < plots.len()
        invariant
            i <= plots@.len(),
            spec_fold_plots(c, plots@.subrange(i as int, plots@.len() as int)) == spec_fold_plots(
                c0,
                plots@,
            ),
        decreases plots@.len() - i,
    {
        let (mask, intensity) = plots[i];
        proof {
            let rest = plots@.subrange(i as int, plots@.len() as int);
            assert(rest[0] == plots@[i as int]);
            assert(rest.subrange(1, rest.len() as int) =~= plots@.subrange(
                i as int + 1,
                plots@.len() as int,
            ));
        }
        c = apply_intensity(c, mask, intensity);
        i = i + 1;
    }
    proof {
        assert(plots@.subrange(plots@.len() as int, plots@.len() as int) =~= Seq::<(
            u8,
            u8,
        )>::empty());
    }
    c
}

} // verus!
