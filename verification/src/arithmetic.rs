//! The arithmetic behind intersection and shading, as the shapes and the scene
//! ask for it.
//!
//! What is decided about a ray is decided in this crate: which roots stand,
//! which side of a plane is seen, which object is met first, which lights count.
//! The sums, products, quotients and square roots that those decisions rest on
//! are computed by an [`Arithmetic`], in whatever precision it has. Each method
//! says what it is meant to compute; a contract that uses one speaks of what
//! the method returned.

use vstd::prelude::*;
use crate::light::{PointLight, UniformLight};
use crate::ray::{Ray, Triple, RGBA};
use crate::scalar::Scalar;
use crate::shapes::{Plane, PlaneSegment, Sphere};

verus! {

/// The quadratic `t^2 + b t + c = 0` of a sphere and a ray, solved.
#[derive(Clone, Copy, Debug)]
pub struct Quadratic {
    /// `b^2 - 4 c`.
    pub discriminant: Scalar,
    /// `-b / 2`, the root where the discriminant is zero.
    pub double: Scalar,
    /// `(-b + sqrt(discriminant)) / 2`.
    pub upper: Scalar,
    /// `(-b - sqrt(discriminant)) / 2`.
    pub lower: Scalar,
}

/// How a ray runs towards a plane.
#[derive(Clone, Copy, Debug)]
pub struct Approach {
    /// The dot product of the plane's normal and the ray's direction: how far
    /// along the normal the ray travels per unit of its direction.
    pub denom: Scalar,
    /// The parameter at which the ray's line crosses the plane: the distance
    /// of the plane from the ray's origin along the normal, over `denom`.
    pub ray_distance: Scalar,
}

/// A vector's part within a plane.
#[derive(Clone, Copy, Debug)]
pub struct InPlane {
    /// The part, scaled to length 1.
    pub axis: Triple,
    /// The length of the part before scaling.
    pub extent: Scalar,
}

/// A light as a point of a surface sees it.
#[derive(Clone, Copy, Debug)]
pub struct Illumination {
    /// The ray from just off the point towards the light.
    pub shadow_ray: Ray,
    /// What the light adds to the point's colour where nothing is in its way.
    pub diffuse: RGBA,
}

/// The numeric operations of the ray tracer.
pub trait Arithmetic {
    /// The point of `ray` at the parameter `distance`:
    /// `origin + distance * direction`.
    fn point_at(&self, ray: &Ray, distance: Scalar) -> Triple;

    /// The quadratic of `sphere` and `ray`: with `offset = origin - center`,
    /// `b = 2 dot(offset, direction)` and `c = dot(offset, offset) - radius^2`.
    fn sphere_quadratic(&self, sphere: &Sphere, ray: &Ray) -> Quadratic;

    /// The unit vector from the centre of `sphere` to `point`.
    fn sphere_normal(&self, sphere: &Sphere, point: &Triple) -> Triple;

    /// The colour that shows a unit normal: each component taken from
    /// [-1, 1] to [0, 1], with alpha 1.
    fn normal_color(&self, normal: &Triple) -> RGBA;

    /// How `ray` runs towards `plane`.
    fn plane_approach(&self, plane: &Plane, ray: &Ray) -> Approach;

    /// What is left of `vector` once its part along the normal of `plane` is
    /// taken out.
    fn in_plane(&self, plane: &Plane, vector: &Triple) -> InPlane;

    /// The coordinates of `point` along the two axes of `segment`, from the
    /// reference point of its plane: `(dot(delta, u), dot(delta, v))` with
    /// `delta = point - reference`.
    fn uv_coords(&self, segment: &PlaneSegment, point: &Triple) -> (Scalar, Scalar);

    /// The part of a material's colour that shows without any light: a tenth
    /// of its red, green and blue, with alpha 1.
    fn ambient(&self, material: RGBA) -> RGBA;

    /// A directional light as `point` sees it. The shadow ray starts at
    /// `point - 0.01 * direction` and runs against the light's direction. The
    /// diffuse term is, channel by channel, the light's colour times the
    /// material's times the cosine between `normal` and the way to the light,
    /// or zero where that cosine is negative.
    fn directional(
        &self,
        point: &Triple,
        normal: &Triple,
        material: RGBA,
        light: &UniformLight,
    ) -> Illumination;

    /// A point light as `point` sees it. With `dir` the unit vector from
    /// `point` to the light, the shadow ray starts at `point + 0.01 * dir` and
    /// runs along `dir`. The diffuse term is as for a directional light.
    fn positional(
        &self,
        point: &Triple,
        normal: &Triple,
        material: RGBA,
        light: &PointLight,
    ) -> Illumination;

    /// `sum` with the red, green and blue of `term` added to it.
    fn blend(&self, sum: RGBA, term: RGBA) -> RGBA;
}

} // verus!
