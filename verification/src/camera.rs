//! What the camera decides about an image and about the rays of a pixel.

use vstd::prelude::*;
use crate::math::is_positive;
use crate::math::Scalar;

verus! {

/// How the rays of a pixel are spread.
#[derive(Clone, Copy, Debug, PartialEq, Eq, Structural)]
pub struct Sampling {
    /// Whether each ray aims at a random point of the pixel's square instead
    /// of its centre.
    pub jitter: bool,
    /// Whether each ray starts at a random point of the lens instead of its
    /// centre.
    pub lens: bool,
}

/// The height in pixels of an image for which the width divided by the
/// aspect ratio came to `rows`: an image has at least one row.
pub fn image_height(rows: i32) -> (height: i32)
    ensures
        height >= 1,
        rows >= 1 ==> height == rows,
        rows < 1 ==> height == 1,
{
    if rows < 1 {
        1
    } else {
        rows
    }
}

/// How the rays of a pixel are spread: over the pixel's square where more
/// than one ray is traced for a pixel, and over the lens where the lens has
/// a positive opening angle `defocus_angle`. An angle that is NaN, given as
/// `None`, is not positive.
pub fn sampling(samples_per_pixel: i32, defocus_angle: Option<Scalar>) -> (sampling: Sampling)
    ensures
        sampling.jitter == (samples_per_pixel > 1),
        sampling.lens == (defocus_angle matches Some(a) && a@ > 0),
{
    Sampling { jitter: samples_per_pixel > 1, lens: is_positive(defocus_angle) }
}

} // verus!
