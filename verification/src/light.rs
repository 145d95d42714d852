//! Light sources.

use vstd::prelude::*;
use crate::ray::{Triple, RGBA};

verus! {

/// A light that shines from one position in every direction.
#[derive(Clone, Copy, Debug)]
pub struct PointLight {
    pub color: RGBA,
    pub position: Triple,
}

/// A light that shines everywhere along one direction, the direction in which
/// its light travels.
#[derive(Clone, Copy, Debug)]
pub struct UniformLight {
    pub color: RGBA,
    pub direction: Triple,
}

} // verus!
