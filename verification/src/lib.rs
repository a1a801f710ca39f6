//! A verified sampling and histogram engine for iterated function systems.
//!
//! The library runs the "chaos game": it repeatedly applies a randomly
//! chosen weighted coordinate transform to an evolving point, collects the
//! orbit, quantizes it onto a pixel grid, folds it into a per-pixel
//! color-and-density histogram, and merges the histograms of independent
//! workers into one global histogram through a byte-exact codec.
//!
//! All plane coordinates, colors and weights are binary fixed-point numbers:
//! an `i64` holding the real value scaled by 2^32. The nonlinear warp
//! kernels (sine, cosine, exponential, square root) are computed by the
//! `cordic` crate over the same representation.

pub mod codec;
pub mod color;
pub mod fx;
pub mod histogram;
pub mod merge;
pub mod normalize;
pub mod rng;
pub mod sampler;
pub mod transform;
pub mod transform_set;
pub mod trig;
pub mod worker;
