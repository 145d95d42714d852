//! What holds of scenes made of this crate's own objects.

use vstd::prelude::*;
use crate::arithmetic::{Approach, Arithmetic, Quadratic};
use crate::nearest::forward;
use crate::objects::{ColoredPlane, NormalSphere};
use crate::ray::{Ray, RGBA};
use crate::scalar::Scalar;
use crate::scene::{lemma_hit_is_a_crossing, Scene};
use crate::shapes::{lemma_segment_from_behind, Sphere};
use crate::tracable::Tracable;

verus! {

/// In a scene of spheres, a ray meets a sphere at a root of that sphere's
/// quadratic, and at one that is `>= 0`.
pub proof fn lemma_sphere_is_met_at_a_root<A: Arithmetic, F: Fn(&Ray) -> RGBA>(
    scene: Scene<NormalSphere<A>, F>,
    ray: Ray,
    t: Scalar,
    i: usize,
)
    requires
        scene.sees(ray, Some((t, i))),
    ensures
        i < scene.objects().len(),
        forward(t),
        exists|q: Quadratic| #[trigger]
            call_ensures(
                A::sphere_quadratic,
                (&scene.objects()[i as int].math(), &scene.objects()[i as int].sphere(), &ray),
                q,
            ) && Sphere::spec_roots(q.discriminant, q.double, q.upper, q.lower).contains(t),
{
    lemma_hit_is_a_crossing(scene, ray, t, i);
    let o = scene.objects()[i as int];
    let ts = choose|ts: Vec<Scalar>| #[trigger]
        call_ensures(NormalSphere::<A>::intersect, (&o, &ray), ts) && ts@.contains(t);
    assert(o.sphere().meets(o.math(), ray, ts@));
}

/// A scene of plane segments that are all seen from behind shows the sky: a
/// ray whose direction has a positive dot product with every normal meets
/// nothing.
pub proof fn lemma_segments_from_behind_show_the_sky<
    A: Arithmetic,
    C: Fn(Scalar, Scalar) -> RGBA,
    F: Fn(&Ray) -> RGBA,
>(scene: Scene<ColoredPlane<A, C>, F>, ray: Ray, hit: Option<(Scalar, usize)>)
    requires
        scene.sees(ray, hit),
        forall|i: int, a: Approach|
            0 <= i < scene.objects().len() && #[trigger] call_ensures(
                A::plane_approach,
                (&scene.objects()[i].math(), &scene.objects()[i].geometry().spec_plane(), &ray),
                a,
            ) ==> (Scalar { bits: 0 }).below(a.denom),
    ensures
        hit is None,
{
    match hit {
        None => {},
        Some((t, i)) => {
            lemma_hit_is_a_crossing(scene, ray, t, i);
            let o = scene.objects()[i as int];
            let ts = choose|ts: Vec<Scalar>| #[trigger]
                call_ensures(ColoredPlane::<A, C>::intersect, (&o, &ray), ts) && ts@.contains(t);
            assert(o.geometry().meets(o.math(), ray, ts@));
            lemma_segment_from_behind(o.geometry(), o.math(), ray, ts@);
        },
    }
}

} // verus!
