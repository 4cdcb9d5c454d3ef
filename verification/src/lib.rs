//! Fuzzy graph plotting: renders the locus where two expressions are
//! approximately equal, coloring pixels by a continuous closeness
//! measure instead of a binary in/out test.
//!
//! This crate holds the exact numeric core: the affine coordinate
//! mapper between pixel and graph space, the angular-branch builder,
//! the disagreement metric with its bounded intensity function, the
//! axis and grid overlays, the saturating compositor, and the
//! scheduler's work partitioning. Expression evaluation, image
//! encoding and the command line live outside the library and hand it
//! plain values: complex results arrive in fixed point, zoom and grid
//! knobs as exact rationals.

pub mod branch;
pub mod color;
pub mod diff;
pub mod frac;
pub mod geom;
pub mod overlay;
pub mod params;
pub mod plots;
pub mod render;

pub use branch::Branch;
pub use color::Rgb;
pub use frac::Frac;
pub use geom::{Point, Rect};
pub use params::Params;
pub use plots::Plot;
