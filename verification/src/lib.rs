//! A verified Mandelbrot escape-time rendering engine.
//!
//! The engine maps pixel coordinates to points of the complex plane under a
//! viewport transform, classifies each point by escape-time iteration, and
//! turns the resulting grid of iteration counts into packed ARGB colors.
//! All plane arithmetic is exact fixed-point integer arithmetic with
//! [`fixed::SCALE`] fractional units per plane unit, so every function of the
//! engine carries a contract that pins its result down exactly.

pub mod color;
pub mod escape;
pub mod fixed;
pub mod render;
pub mod viewport;
pub mod zoom;
