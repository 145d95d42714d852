//! The objects of a scene: a shape bound to a material.

use vstd::prelude::*;
use crate::arithmetic::Arithmetic;
use crate::ray::{Ray, Triple, RGBA};
use crate::scalar::Scalar;
use crate::shapes::{PlaneSegment, Sphere};
use crate::tracable::{Drawable, Renderable, Tracable};

verus! {

/// A sphere whose colour shows its normal.
pub struct NormalSphere<A: Arithmetic> {
    sphere: Sphere,
    math: A,
}

impl<A: Arithmetic> NormalSphere<A> {
    /// The shape.
    pub closed spec fn sphere(&self) -> Sphere {
        self.sphere
    }

    /// The arithmetic that the object computes with.
    pub closed spec fn math(&self) -> A {
        self.math
    }

    /// Whether `color` can be the colour at `point`: the colour that shows
    /// the normal there.
    pub open spec fn shows(&self, point: Triple, color: RGBA) -> bool {
        exists|normal: Triple|
            call_ensures(A::sphere_normal, (&self.math(), &self.sphere(), &point), normal)
                && #[trigger] call_ensures(A::normal_color, (&self.math(), &normal), color)
    }

    /// The object of the given shape.
    pub fn new(sphere: Sphere, math: A) -> (s: Self)
        ensures
            s.sphere() == sphere,
            s.math() == math,
    {
        NormalSphere { sphere, math }
    }
}

impl<A: Arithmetic> Tracable for NormalSphere<A> {
    /// The parameters at which `r` meets the sphere.
    fn intersect(&self, r: &Ray) -> (ts: Vec<Scalar>)
        ensures
            self.sphere().meets(self.math(), *r, ts@),
    {
        self.sphere.intersect(r, &self.math)
    }
}

impl<A: Arithmetic> Renderable for NormalSphere<A> {
    /// The colour that shows the normal at `p`, whatever the ray.
    fn material_color(&self, ray: &Ray, p: &Triple) -> (color: RGBA)
        ensures
            self.shows(*p, color),
    {
        let normal = self.sphere.normal(p, &self.math);
        let color = self.math.normal_color(&normal);
        assert(call_ensures(A::sphere_normal, (&self.math(), &self.sphere(), p), normal)
            && call_ensures(A::normal_color, (&self.math(), &normal), color));
        color
    }

    /// The unit vector from the centre to `p`.
    fn normal(&self, p: &Triple) -> (n: Triple)
        ensures
            call_ensures(A::sphere_normal, (&self.math(), &self.sphere(), p), n),
    {
        self.sphere.normal(p, &self.math)
    }
}

impl<A: Arithmetic> Drawable for NormalSphere<A> {
}

/// A colour function of two coordinates that accepts every pair of them.
struct Paint<C: Fn(Scalar, Scalar) -> RGBA> {
    map: C,
}

impl<C: Fn(Scalar, Scalar) -> RGBA> Paint<C> {
    #[verifier::type_invariant]
    closed spec fn accepts_all(&self) -> bool {
        forall|u: Scalar, v: Scalar| call_requires(self.map, (u, v))
    }

    fn new(map: C) -> (paint: Self)
        requires
            forall|u: Scalar, v: Scalar| call_requires(map, (u, v)),
        ensures
            paint.map == map,
    {
        Paint { map }
    }

    fn color(&self, u: Scalar, v: Scalar) -> (color: RGBA)
        ensures
            call_ensures(self.map, (u, v), color),
    {
        proof {
            use_type_invariant(self);
        }
        (self.map)(u, v)
    }
}

/// A plane segment whose colour is a function of the coordinates on it.
pub struct ColoredPlane<A: Arithmetic, C: Fn(Scalar, Scalar) -> RGBA> {
    geometry: PlaneSegment,
    uv_mapped_color: Paint<C>,
    math: A,
}

impl<A: Arithmetic, C: Fn(Scalar, Scalar) -> RGBA> ColoredPlane<A, C> {
    /// The shape.
    pub closed spec fn geometry(&self) -> PlaneSegment {
        self.geometry
    }

    /// The colour function.
    pub closed spec fn uv_mapped_color(&self) -> C {
        self.uv_mapped_color.map
    }

    /// The arithmetic that the object computes with.
    pub closed spec fn math(&self) -> A {
        self.math
    }

    /// Whether `color` can be the colour at `point`: what the colour function
    /// gives for the coordinates of the point on the segment.
    pub open spec fn shows(&self, point: Triple, color: RGBA) -> bool {
        exists|uv: (Scalar, Scalar)|
            call_ensures(A::uv_coords, (&self.math(), &self.geometry(), &point), uv)
                && #[trigger] call_ensures(self.uv_mapped_color(), (uv.0, uv.1), color)
    }

    /// The object of the given shape and colour function.
    pub fn new(plane: PlaneSegment, uv_mapped_color: C, math: A) -> (p: Self)
        requires
            forall|u: Scalar, v: Scalar| call_requires(uv_mapped_color, (u, v)),
        ensures
            p.geometry() == plane,
            p.uv_mapped_color() == uv_mapped_color,
            p.math() == math,
    {
        ColoredPlane { geometry: plane, uv_mapped_color: Paint::new(uv_mapped_color), math }
    }
}

impl<A: Arithmetic, C: Fn(Scalar, Scalar) -> RGBA> Tracable for ColoredPlane<A, C> {
    /// The parameter at which `r` meets the segment.
    fn intersect(&self, r: &Ray) -> (ts: Vec<Scalar>)
        ensures
            self.geometry().meets(self.math(), *r, ts@),
    {
        self.geometry.intersect(r, &self.math)
    }
}

impl<A: Arithmetic, C: Fn(Scalar, Scalar) -> RGBA> Renderable for ColoredPlane<A, C> {
    /// The colour that the colour function gives for the coordinates of `p`,
    /// whatever the ray.
    fn material_color(&self, ray: &Ray, p: &Triple) -> (color: RGBA)
        ensures
            self.shows(*p, color),
    {
        let (u, v) = self.geometry.uv_coords(p, &self.math);
        let color = self.uv_mapped_color.color(u, v);
        assert(call_ensures(A::uv_coords, (&self.math(), &self.geometry(), p), (u, v))
            && call_ensures(self.uv_mapped_color(), (u, v), color));
        color
    }

    /// The normal of the plane, whatever the point.
    fn normal(&self, p: &Triple) -> (n: Triple)
        ensures
            n == self.geometry().spec_plane().normal,
    {
        self.geometry.plane().normal
    }
}

impl<A: Arithmetic, C: Fn(Scalar, Scalar) -> RGBA> Drawable for ColoredPlane<A, C> {
}

} // verus!
