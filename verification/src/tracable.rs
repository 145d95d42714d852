//! What a scene asks of the objects it holds.

use vstd::prelude::*;
use crate::ray::{Ray, Triple, RGBA};
use crate::scalar::Scalar;

verus! {

/// A shape that a ray can be tested against.
pub trait Tracable {
    /// The parameters at which `ray` meets the shape, those behind the origin
    /// included, in no promised order.
    fn intersect(&self, ray: &Ray) -> Vec<Scalar>;
}

/// A surface that can be shaded.
pub trait Renderable {
    /// The colour of the material that `ray` sees at `point`.
    fn material_color(&self, ray: &Ray, point: &Triple) -> RGBA;

    /// The outward direction of the surface at `point`.
    fn normal(&self, point: &Triple) -> Triple;
}

/// An object of a scene: a shape together with its material.
pub trait Drawable: Tracable + Renderable {
}

/// A boxed shape is the shape.
impl<T: Tracable + ?Sized> Tracable for Box<T> {
    fn intersect(&self, ray: &Ray) -> (ts: Vec<Scalar>)
        ensures
            call_ensures(T::intersect, (&**self, ray), ts),
    {
        (**self).intersect(ray)
    }
}

/// A boxed surface is the surface.
impl<T: Renderable + ?Sized> Renderable for Box<T> {
    fn material_color(&self, ray: &Ray, point: &Triple) -> (color: RGBA)
        ensures
            call_ensures(T::material_color, (&**self, ray, point), color),
    {
        (**self).material_color(ray, point)
    }

    fn normal(&self, point: &Triple) -> (n: Triple)
        ensures
            call_ensures(T::normal, (&**self, point), n),
    {
        (**self).normal(point)
    }
}

/// A boxed object is the object.
impl<T: Drawable + ?Sized> Drawable for Box<T> {
}

} // verus!
