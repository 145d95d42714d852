//! Vectors, rays and colours, as plain aggregates of numbers.

use vstd::prelude::*;
use crate::scalar::Scalar;

verus! {

/// Red, green, blue and alpha, conventionally in [0, 1] and never clamped here.
pub type RGBA = (Scalar, Scalar, Scalar, Scalar);

/// A vector or a point of space.
#[derive(Clone, Copy, Debug, PartialEq, Eq, Structural)]
pub struct Triple {
    pub x: Scalar,
    pub y: Scalar,
    pub z: Scalar,
}

impl Triple {
    /// The vector with the given components.
    pub fn new(x: Scalar, y: Scalar, z: Scalar) -> (t: Triple)
        ensures
            t == (Triple { x, y, z }),
    {
        Triple { x, y, z }
    }
}

/// The points `origin + t * direction`, one for each parameter `t`.
#[derive(Clone, Copy, Debug, PartialEq, Eq, Structural)]
pub struct Ray {
    pub origin: Triple,
    pub direction: Triple,
}

} // verus!
