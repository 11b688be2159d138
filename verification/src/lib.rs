//! The kernel of a Monte-Carlo path tracer, verified with Verus.
//!
//! A path tracer renders a scene by following rays from the camera through
//! each pixel and from surface to surface. Most of that work is arithmetic in
//! floating point: where a ray crosses a sphere, in which direction a mirror
//! sends it, what colour a surface gives it. This crate holds the rest, the
//! part that can be stated and proved exactly:
//!
//! - [`ringbuffer`]: the bounded first-in first-out queue that the render's
//!   tasks wait in;
//! - [`scheduler`]: the schedule of a render, one task per pixel, completed
//!   in any order and delivered in raster order;
//! - [`renderer`]: the render itself, the path of a ray up to its bounce
//!   budget, and the sum of a pixel's samples;
//! - [`ray`]: the nearest hit of a ray among the objects of a scene;
//! - [`material`]: what a surface of a given material does with a ray;
//! - [`camera`]: how the rays of a pixel are spread;
//! - [`interval`] and [`math`]: ranges and comparisons of the tracer's
//!   numbers.
//!
//! Numbers come in as [`math::Scalar`]s, integers that order the way the
//! single-precision numbers do that they stand for; colours and rays come in
//! as values of any type, with the arithmetic on them handed in as functions.
//! The caller computes, and the functions here decide and keep order.

pub mod camera;
pub mod interval;
pub mod material;
pub mod math;
pub mod ray;
pub mod renderer;
pub mod ringbuffer;
pub mod scheduler;
