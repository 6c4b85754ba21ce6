//! A Buddhabrot renderer: a density image built by plotting the transient
//! trajectories of complex seeds that escape the Mandelbrot iteration.
//!
//! The crate is organised like the renderer it implements: complex
//! arithmetic over an abstract scalar, an exactly-specified fixed-point
//! scalar, colors that accumulate per-pixel contributions, dense pixel
//! buffers, the Monte Carlo sampling engine, and the whole-image
//! collaborators around it.

pub mod color;
pub mod complex;
pub mod fixed;
pub mod image;
pub mod images;
pub mod ops;
pub mod parse;
pub mod sample;
