//! The scene: its objects, its lights and its sky, and what a ray sees of them.

use vstd::prelude::*;
use crate::light::{PointLight, UniformLight};
use crate::nearest::{first_least, forward, lists, nearest_hit, resolves};
use crate::ray::{Ray, Triple, RGBA};
use crate::scalar::Scalar;
use crate::arithmetic::{Arithmetic, Illumination};
use crate::tracable::Drawable;

verus! {

/// A sky function that accepts every ray.
struct Sky<F: Fn(&Ray) -> RGBA> {
    paint: F,
}

impl<F: Fn(&Ray) -> RGBA> Sky<F> {
    #[verifier::type_invariant]
    closed spec fn accepts_all(&self) -> bool {
        forall|r: Ray| call_requires(self.paint, (&r,))
    }

    fn new(paint: F) -> (sky: Self)
        requires
            forall|r: Ray| call_requires(paint, (&r,)),
        ensures
            sky.paint == paint,
    {
        Sky { paint }
    }

    fn color(&self, ray: &Ray) -> (color: RGBA)
        ensures
            call_ensures(self.paint, (ray,), color),
    {
        proof {
            use_type_invariant(self);
        }
        (self.paint)(ray)
    }
}

/// Objects in the order in which they were added, lights, and the colour of
/// the sky. `F` gives the sky's colour along a ray.
pub struct Scene<D: Drawable, F: Fn(&Ray) -> RGBA> {
    objects: Vec<D>,
    skybox: Option<Sky<F>>,
    point_lights: Vec<PointLight>,
    directional_lights: Vec<UniformLight>,
}

/// The colour of a sky that was never set: transparent black.
pub open spec fn blank() -> RGBA {
    (Scalar { bits: 0 }, Scalar { bits: 0 }, Scalar { bits: 0 }, Scalar { bits: 0 })
}

impl<D: Drawable, F: Fn(&Ray) -> RGBA> Scene<D, F> {
    /// The objects, in the order in which they were added.
    pub closed spec fn objects(&self) -> Seq<D> {
        self.objects@
    }

    /// The point lights, in the order in which they were added.
    pub closed spec fn point_lights(&self) -> Seq<PointLight> {
        self.point_lights@
    }

    /// The directional lights, in the order in which they were added.
    pub closed spec fn directional_lights(&self) -> Seq<UniformLight> {
        self.directional_lights@
    }

    /// The sky function, once one was set.
    pub closed spec fn skybox(&self) -> Option<F> {
        match self.skybox {
            None => None,
            Some(sky) => Some(sky.paint),
        }
    }

    /// Whether `cs` can be what the objects, one after the other, give as the
    /// parameters at which `ray` meets them.
    pub open spec fn gathers(&self, ray: Ray, cs: Seq<Vec<Scalar>>) -> bool {
        &&& cs.len() == self.objects().len()
        &&& forall|i: int|
            0 <= i < cs.len() ==> call_ensures(
                D::intersect,
                (&self.objects()[i], &ray),
                #[trigger] cs[i],
            )
    }

    /// Whether `hit` can be what `ray` meets first: with what the objects give
    /// for `ray`, `hit` is the smallest parameter `>= 0` of all, with the index
    /// of the first object that has it, or `None` where no object has such a
    /// parameter.
    pub open spec fn sees(&self, ray: Ray, hit: Option<(Scalar, usize)>) -> bool {
        exists|cs: Seq<Vec<Scalar>>| #[trigger] self.gathers(ray, cs) && resolves(lists(cs), hit)
    }

    /// A scene without objects or lights, under a transparent black sky.
    pub fn new() -> (s: Self)
        ensures
            s.objects() == Seq::<D>::empty(),
            s.point_lights() == Seq::<PointLight>::empty(),
            s.directional_lights() == Seq::<UniformLight>::empty(),
            s.skybox() is None,
    {
        Scene {
            objects: Vec::new(),
            skybox: None,
            point_lights: Vec::new(),
            directional_lights: Vec::new(),
        }
    }

    /// Adds an object behind those already there.
    pub fn add_object(&mut self, object: D)
        ensures
            final(self).objects() == old(self).objects().push(object),
            final(self).point_lights() == old(self).point_lights(),
            final(self).directional_lights() == old(self).directional_lights(),
            final(self).skybox() == old(self).skybox(),
    {
        self.objects.push(object);
    }

    /// Adds a point light behind those already there.
    pub fn add_point_light(&mut self, light: PointLight)
        ensures
            final(self).point_lights() == old(self).point_lights().push(light),
            final(self).objects() == old(self).objects(),
            final(self).directional_lights() == old(self).directional_lights(),
            final(self).skybox() == old(self).skybox(),
    {
        self.point_lights.push(light);
    }

    /// Adds a directional light behind those already there.
    pub fn add_directional_light(&mut self, light: UniformLight)
        ensures
            final(self).directional_lights() == old(self).directional_lights().push(light),
            final(self).objects() == old(self).objects(),
            final(self).point_lights() == old(self).point_lights(),
            final(self).skybox() == old(self).skybox(),
    {
        self.directional_lights.push(light);
    }

    /// Replaces the sky function.
    pub fn set_skybox(&mut self, skybox: F)
        requires
            forall|r: Ray| call_requires(skybox, (&r,)),
        ensures
            final(self).skybox() == Some(skybox),
            final(self).objects() == old(self).objects(),
            final(self).point_lights() == old(self).point_lights(),
            final(self).directional_lights() == old(self).directional_lights(),
    {
        self.skybox = Some(Sky::new(skybox));
    }

    /// The number of objects.
    pub fn object_count(&self) -> (n: usize)
        ensures
            n == self.objects().len(),
    {
        self.objects.len()
    }

    /// The object that was added as the `index`-th, counting from 0.
    pub fn object(&self, index: usize) -> (o: Option<&D>)
        ensures
            index >= self.objects().len() ==> o is None,
            index < self.objects().len() ==> o == Some(&self.objects()[index as int]),
    {
        if index < self.objects.len() {
            Some(&self.objects[index])
        } else {
            None
        }
    }

    /// The point lights.
    pub fn lights_at_points(&self) -> (lights: &Vec<PointLight>)
        ensures
            lights@ == self.point_lights(),
    {
        &self.point_lights
    }

    /// The directional lights.
    pub fn lights_along_directions(&self) -> (lights: &Vec<UniformLight>)
        ensures
            lights@ == self.directional_lights(),
    {
        &self.directional_lights
    }

    /// The index of the object that `ray` meets first, and the parameter at
    /// which it meets it: the smallest parameter `>= 0` over all objects, and
    /// of the objects that have it the one added first. `None` when no object
    /// has such a parameter.
    pub fn nearest(&self, ray: &Ray) -> (r: Option<(Scalar, usize)>)
        ensures
            self.sees(*ray, r),
            r matches Some((_, i)) ==> i < self.objects().len(),
    {
        let mut gathered: Vec<Vec<Scalar>> = Vec::new();
        let mut i: usize = 0;
        while i < self.objects.len()
            invariant
                i <= self.objects.len(),
                gathered.len() == i,
                forall|k: int|
                    0 <= k < i ==> call_ensures(
                        D::intersect,
                        (&self.objects@[k], ray),
                        #[trigger] gathered@[k],
                    ),
            decreases self.objects.len() - i,
        {
            let ts = self.objects[i].intersect(ray);
            gathered.push(ts);
            i += 1;
        }
        let r = nearest_hit(&gathered);
        assert(self.gathers(*ray, gathered@) && resolves(lists(gathered@), r));
        r
    }

    /// Whether `object` can be what `ray` meets first, at the parameter `t`.
    pub open spec fn meets(&self, ray: Ray, t: Scalar, object: D) -> bool {
        exists|i: usize|
            #[trigger] self.sees(ray, Some((t, i))) && i < self.objects().len() && object
                == self.objects()[i as int]
    }

    /// The object that `ray` meets first, and the parameter at which it meets
    /// it: see [`Scene::nearest`].
    pub fn cast_ray(&self, ray: &Ray) -> (r: Option<(Scalar, &D)>)
        ensures
            r is None ==> self.sees(*ray, None),
            r matches Some((t, o)) ==> self.meets(*ray, t, *o),
    {
        match self.nearest(ray) {
            None => None,
            Some((t, i)) => {
                let o = &self.objects[i];
                assert(self.sees(*ray, Some((t, i))) && i < self.objects().len() && *o
                    == self.objects()[i as int]);
                assert(self.meets(*ray, t, *o));
                Some((t, o))
            },
        }
    }

    /// What the sky shows where `color` is its colour along `ray`.
    pub open spec fn sky_shows(&self, ray: Ray, color: RGBA) -> bool {
        match self.skybox() {
            None => color == blank(),
            Some(f) => call_ensures(f, (&ray,), color),
        }
    }

    /// The colour of the sky along `ray`: what the sky function gives, and
    /// transparent black where none was set.
    pub fn sky_color(&self, ray: &Ray) -> (color: RGBA)
        ensures
            self.sky_shows(*ray, color),
    {
        match &self.skybox {
            None => (Scalar::zero(), Scalar::zero(), Scalar::zero(), Scalar::zero()),
            Some(sky) => sky.color(ray),
        }
    }

    /// What one light does to a sum: an occluded light leaves it as it is, and
    /// any other has what it gives added. A light is occluded where its shadow
    /// ray meets an object at or ahead of its origin.
    pub open spec fn lit_step<A: Arithmetic>(
        &self,
        math: A,
        light: Illumination,
        before: RGBA,
        after: RGBA,
    ) -> bool {
        exists|hit: Option<(Scalar, usize)>|
            #[trigger] self.sees(light.shadow_ray, hit) && match hit {
                None => call_ensures(A::blend, (&math, before, light.diffuse), after),
                Some(_) => after == before,
            }
    }

    /// Whether adding up, from `start` and in order, what the lights of
    /// `lights` that are not occluded give can end in `end`.
    pub open spec fn lit_sum<A: Arithmetic>(
        &self,
        math: A,
        lights: Seq<Illumination>,
        start: RGBA,
        end: RGBA,
    ) -> bool
        decreases lights.len(),
    {
        if lights.len() == 0 {
            end == start
        } else {
            exists|mid: RGBA|
                self.lit_sum(math, lights.drop_last(), start, mid) && #[trigger] self.lit_step(
                    math,
                    lights.last(),
                    mid,
                    end,
                )
        }
    }

    /// Whether `seen` can be the directional lights, one by one and in their
    /// order, as the point sees them.
    pub open spec fn from_directions<A: Arithmetic>(
        &self,
        math: A,
        point: Triple,
        normal: Triple,
        material: RGBA,
        seen: Seq<Illumination>,
    ) -> bool {
        &&& seen.len() == self.directional_lights().len()
        &&& forall|k: int|
            0 <= k < seen.len() ==> call_ensures(
                A::directional,
                (&math, &point, &normal, material, &self.directional_lights()[k]),
                #[trigger] seen[k],
            )
    }

    /// Whether `seen` can be the point lights, one by one and in their order,
    /// as the point sees them.
    pub open spec fn from_positions<A: Arithmetic>(
        &self,
        math: A,
        point: Triple,
        normal: Triple,
        material: RGBA,
        seen: Seq<Illumination>,
    ) -> bool {
        &&& seen.len() == self.point_lights().len()
        &&& forall|k: int|
            0 <= k < seen.len() ==> call_ensures(
                A::positional,
                (&math, &point, &normal, material, &self.point_lights()[k]),
                #[trigger] seen[k],
            )
    }

    /// The steps from a material to the colour of a lit point: the ambient
    /// term; then what the directional lights `far` that are not occluded
    /// give, which leads to `mid`; then what such point lights `near` give.
    pub open spec fn diffuse_steps<A: Arithmetic>(
        &self,
        math: A,
        point: Triple,
        normal: Triple,
        material: RGBA,
        ambient: RGBA,
        far: Seq<Illumination>,
        mid: RGBA,
        near: Seq<Illumination>,
        color: RGBA,
    ) -> bool {
        &&& call_ensures(A::ambient, (&math, material), ambient)
        &&& self.from_directions(math, point, normal, material, far)
        &&& self.lit_sum(math, far, ambient, mid)
        &&& self.from_positions(math, point, normal, material, near)
        &&& self.lit_sum(math, near, mid, color)
    }

    /// Whether `color` can be the colour of a lit point: the ambient term and
    /// what every light that is not occluded gives, summed and neither
    /// averaged nor clamped.
    pub open spec fn diffuses<A: Arithmetic>(
        &self,
        math: A,
        point: Triple,
        normal: Triple,
        material: RGBA,
        color: RGBA,
    ) -> bool {
        exists|ambient: RGBA, far: Seq<Illumination>, mid: RGBA, near: Seq<Illumination>|
            #[trigger] self.diffuse_steps(
                math,
                point,
                normal,
                material,
                ambient,
                far,
                mid,
                near,
                color,
            )
    }

    /// The steps from a hit to its colour: the point at parameter `t` on the
    /// ray, the colour and the normal that object `i` has there, and the
    /// colour of that point once lit.
    pub open spec fn surface_steps<A: Arithmetic>(
        &self,
        math: A,
        ray: Ray,
        t: Scalar,
        i: usize,
        point: Triple,
        material: RGBA,
        normal: Triple,
        color: RGBA,
    ) -> bool {
        &&& i < self.objects().len()
        &&& call_ensures(A::point_at, (&math, &ray, t), point)
        &&& call_ensures(D::material_color, (&self.objects()[i as int], &ray, &point), material)
        &&& call_ensures(D::normal, (&self.objects()[i as int], &point), normal)
        &&& self.diffuses(math, point, normal, material, color)
    }

    /// Whether `color` can be what `ray` sees given what it meets first: the
    /// sky where it meets nothing, else the lit colour of the point at which
    /// it meets the object.
    pub open spec fn colors<A: Arithmetic>(
        &self,
        math: A,
        ray: Ray,
        hit: Option<(Scalar, usize)>,
        color: RGBA,
    ) -> bool {
        match hit {
            None => self.sky_shows(ray, color),
            Some((t, i)) => exists|point: Triple, material: RGBA, normal: Triple|
                #[trigger] self.surface_steps(math, ray, t, i, point, material, normal, color),
        }
    }

    /// Whether `color` can be what `ray` sees.
    pub open spec fn renders<A: Arithmetic>(&self, math: A, ray: Ray, color: RGBA) -> bool {
        exists|hit: Option<(Scalar, usize)>|
            #[trigger] self.sees(ray, hit) && self.colors(math, ray, hit, color)
    }

    /// The colour that `ray` sees. Where it meets no object this is exactly
    /// the sky's colour along it, with nothing added. Where it meets one, it
    /// is the colour of the material at the point where it meets it, lit as
    /// [`Scene::get_diffuse`] has it.
    pub fn get_color<A: Arithmetic>(&self, ray: &Ray, math: &A) -> (color: RGBA)
        ensures
            self.renders(*math, *ray, color),
    {
        let hit = self.nearest(ray);
        let color = match hit {
            None => self.sky_color(ray),
            Some((distance, i)) => {
                let obj = &self.objects[i];
                let point = math.point_at(ray, distance);
                let material_color = obj.material_color(ray, &point);
                let normal = obj.normal(&point);
                let color = self.get_diffuse(&point, &normal, material_color, math);
                assert(self.surface_steps(
                    *math,
                    *ray,
                    distance,
                    i,
                    point,
                    material_color,
                    normal,
                    color,
                ));
                color
            },
        };
        assert(self.sees(*ray, hit) && self.colors(*math, *ray, hit, color));
        color
    }

    /// The colour of a lit point: the ambient term, then what each directional
    /// light that is not occluded gives, then what each such point light
    /// gives, added in that order. An occluded light gives nothing.
    pub fn get_diffuse<A: Arithmetic>(
        &self,
        point: &Triple,
        normal: &Triple,
        material: RGBA,
        math: &A,
    ) -> (color: RGBA)
        ensures
            self.diffuses(*math, *point, *normal, material, color),
    {
        let ambient = math.ambient(material);

        let mut far: Vec<Illumination> = Vec::new();
        let mut k: usize = 0;
        while k < self.directional_lights.len()
            invariant
                k <= self.directional_lights.len(),
                far.len() == k,
                forall|j: int|
                    0 <= j < k ==> call_ensures(
                        A::directional,
                        (math, point, normal, material, &self.directional_lights@[j]),
                        #[trigger] far@[j],
                    ),
            decreases self.directional_lights.len() - k,
        {
            let seen = math.directional(point, normal, material, &self.directional_lights[k]);
            far.push(seen);
            k += 1;
        }
        let mid = self.add_lit(ambient, &far, math);

        let mut near: Vec<Illumination> = Vec::new();
        let mut k: usize = 0;
        while k < self.point_lights.len()
            invariant
                k <= self.point_lights.len(),
                near.len() == k,
                forall|j: int|
                    0 <= j < k ==> call_ensures(
                        A::positional,
                        (math, point, normal, material, &self.point_lights@[j]),
                        #[trigger] near@[j],
                    ),
            decreases self.point_lights.len() - k,
        {
            let seen = math.positional(point, normal, material, &self.point_lights[k]);
            near.push(seen);
            k += 1;
        }
        let color = self.add_lit(mid, &near, math);

        assert(self.diffuse_steps(
            *math,
            *point,
            *normal,
            material,
            ambient,
            far@,
            mid,
            near@,
            color,
        ));
        color
    }

    /// Adds to `start` what each light of `lights` that is not occluded gives.
    fn add_lit<A: Arithmetic>(&self, start: RGBA, lights: &Vec<Illumination>, math: &A) -> (end:
        RGBA)
        ensures
            self.lit_sum(*math, lights@, start, end),
    {
        let mut sum = start;
        let mut k: usize = 0;
        while k < lights.len()
            invariant
                k <= lights.len(),
                self.lit_sum(*math, lights@.take(k as int), start, sum),
            decreases lights.len() - k,
        {
            let light = lights[k];
            let ghost before = sum;
            let hit = self.nearest(&light.shadow_ray);
            if hit.is_none() {
                sum = math.blend(sum, light.diffuse);
            }
            proof {
                assert(self.sees(light.shadow_ray, hit));
                assert(self.lit_step(*math, light, before, sum));
                let grown = lights@.take(k + 1);
                assert(grown.drop_last() =~= lights@.take(k as int));
                assert(grown.last() == light);
                assert(self.lit_sum(*math, grown.drop_last(), start, before) && self.lit_step(
                    *math,
                    grown.last(),
                    before,
                    sum,
                ));
            }
            k += 1;
        }
        assert(lights@.take(k as int) =~= lights@);
        sum
    }
}

/// A ray through a scene without objects meets nothing.
pub proof fn lemma_nothing_to_meet<D: Drawable, F: Fn(&Ray) -> RGBA>(
    scene: Scene<D, F>,
    ray: Ray,
    hit: Option<(Scalar, usize)>,
)
    requires
        scene.objects().len() == 0,
        scene.sees(ray, hit),
    ensures
        hit is None,
{
    let cs = choose|cs: Seq<Vec<Scalar>>| #[trigger]
        scene.gathers(ray, cs) && resolves(lists(cs), hit);
    assert(lists(cs).len() == 0);
}

/// What a ray meets first is met: the parameter is one of those that the
/// object itself gave for the ray, and it is `>= 0`.
pub proof fn lemma_hit_is_a_crossing<D: Drawable, F: Fn(&Ray) -> RGBA>(
    scene: Scene<D, F>,
    ray: Ray,
    t: Scalar,
    i: usize,
)
    requires
        scene.sees(ray, Some((t, i))),
    ensures
        i < scene.objects().len(),
        forward(t),
        exists|ts: Vec<Scalar>| #[trigger]
            call_ensures(D::intersect, (&scene.objects()[i as int], &ray), ts) && ts@.contains(t),
{
    let cs = choose|cs: Seq<Vec<Scalar>>| #[trigger]
        scene.gathers(ray, cs) && resolves(lists(cs), Some((t, i)));
    let own = lists(cs)[i as int];
    let j = choose|j: int| first_least(own, j) && own[j] == t;
    assert(own == cs[i as int]@);
    assert(cs[i as int]@[j] == t);
    assert(call_ensures(D::intersect, (&scene.objects()[i as int], &ray), cs[i as int])
        && cs[i as int]@.contains(t));
}

/// A ray that meets nothing sees exactly the sky: where the objects leave no
/// other answer, the colour is the sky's along the ray, with no ambient or
/// diffuse light in it.
pub proof fn lemma_sky_fallback<D: Drawable, F: Fn(&Ray) -> RGBA, A: Arithmetic>(
    scene: Scene<D, F>,
    math: A,
    ray: Ray,
    color: RGBA,
)
    requires
        forall|t: Scalar, i: usize| !scene.sees(ray, Some((t, i))),
        scene.renders(math, ray, color),
    ensures
        scene.sky_shows(ray, color),
{
    let hit = choose|hit: Option<(Scalar, usize)>| #[trigger]
        scene.sees(ray, hit) && scene.colors(math, ray, hit, color);
    match hit {
        None => {},
        Some((t, i)) => {
            assert(scene.sees(ray, Some((t, i))));
        },
    }
}

/// An occluded light gives exactly nothing: where the shadow ray of a light
/// cannot reach it, every colour that comes out is one that comes out without
/// that light.
pub proof fn lemma_occluded_gives_nothing<D: Drawable, F: Fn(&Ray) -> RGBA, A: Arithmetic>(
    scene: Scene<D, F>,
    math: A,
    lights: Seq<Illumination>,
    k: int,
    start: RGBA,
    end: RGBA,
)
    requires
        0 <= k < lights.len(),
        !scene.sees(lights[k].shadow_ray, None),
        scene.lit_sum(math, lights, start, end),
    ensures
        scene.lit_sum(math, lights.remove(k), start, end),
    decreases lights.len(),
{
    let last = lights.len() - 1;
    let mid = choose|mid: RGBA|
        scene.lit_sum(math, lights.drop_last(), start, mid) && #[trigger] scene.lit_step(
            math,
            lights.last(),
            mid,
            end,
        );
    if k == last {
        assert(lights.remove(k) =~= lights.drop_last());
        let hit = choose|hit: Option<(Scalar, usize)>| #[trigger]
            scene.sees(lights.last().shadow_ray, hit) && match hit {
                None => call_ensures(A::blend, (&math, mid, lights.last().diffuse), end),
                Some(_) => end == mid,
            };
        assert(hit is Some);
    } else {
        let fewer = lights.remove(k);
        assert(fewer.drop_last() =~= lights.drop_last().remove(k));
        assert(fewer.last() == lights.last());
        assert(lights.drop_last()[k] == lights[k]);
        lemma_occluded_gives_nothing(scene, math, lights.drop_last(), k, start, mid);
        assert(scene.lit_sum(math, fewer.drop_last(), start, mid) && scene.lit_step(
            math,
            fewer.last(),
            mid,
            end,
        ));
    }
}

/// Where no light can be reached the colour of a point is its ambient term
/// alone.
pub proof fn lemma_all_occluded<D: Drawable, F: Fn(&Ray) -> RGBA, A: Arithmetic>(
    scene: Scene<D, F>,
    math: A,
    lights: Seq<Illumination>,
    start: RGBA,
    end: RGBA,
)
    requires
        forall|k: int| 0 <= k < lights.len() ==> !scene.sees(#[trigger] lights[k].shadow_ray, None),
        scene.lit_sum(math, lights, start, end),
    ensures
        end == start,
    decreases lights.len(),
{
    if lights.len() > 0 {
        let front = lights.drop_last();
        assert(!scene.sees(lights[lights.len() - 1].shadow_ray, None));
        let mid = choose|mid: RGBA|
            scene.lit_sum(math, front, start, mid) && #[trigger] scene.lit_step(
                math,
                lights.last(),
                mid,
                end,
            );
        let hit = choose|hit: Option<(Scalar, usize)>| #[trigger]
            scene.sees(lights.last().shadow_ray, hit) && match hit {
                None => call_ensures(A::blend, (&math, mid, lights.last().diffuse), end),
                Some(_) => end == mid,
            };
        assert(hit is Some);
        assert forall|k: int| 0 <= k < front.len() implies !scene.sees(
            #[trigger] front[k].shadow_ray,
            None,
        ) by {
            assert(front[k] == lights[k]);
        }
        lemma_all_occluded(scene, math, front, start, mid);
    }
}

/// A scene without lights shows of every point its ambient term alone.
pub proof fn lemma_unlit<D: Drawable, F: Fn(&Ray) -> RGBA, A: Arithmetic>(
    scene: Scene<D, F>,
    math: A,
    point: Triple,
    normal: Triple,
    material: RGBA,
    color: RGBA,
)
    requires
        scene.point_lights().len() == 0,
        scene.directional_lights().len() == 0,
        scene.diffuses(math, point, normal, material, color),
    ensures
        call_ensures(A::ambient, (&math, material), color),
{
    let (ambient, far, mid, near) = choose|
        ambient: RGBA,
        far: Seq<Illumination>,
        mid: RGBA,
        near: Seq<Illumination>,
    | #[trigger]
        scene.diffuse_steps(math, point, normal, material, ambient, far, mid, near, color);
    assert(far.len() == 0 && near.len() == 0);
}

} // verus!
