use raytracer::arithmetic::{Approach, Arithmetic, Illumination, InPlane, Quadratic};
use raytracer::light::{PointLight, UniformLight};
use raytracer::objects::{ColoredPlane, NormalSphere};
use raytracer::ray::{Ray, Triple, RGBA};
use raytracer::scalar::Scalar;
use raytracer::scene::Scene;
use raytracer::shapes::{BasisError, Plane, PlaneSegment, Sphere};
use raytracer::tracable::{Drawable, Renderable, Tracable};

type Object = Box<dyn Drawable>;
type Sky = Box<dyn Fn(&Ray) -> RGBA>;
type World = Scene<Object, Sky>;
type Rgba = (f32, f32, f32, f32);

fn n(x: f32) -> Scalar {
    Scalar::from_bits(x.to_bits())
}

fn f(s: Scalar) -> f32 {
    f32::from_bits(s.to_bits())
}

fn color(c: Rgba) -> RGBA {
    (n(c.0), n(c.1), n(c.2), n(c.3))
}

fn floats(c: RGBA) -> Rgba {
    (f(c.0), f(c.1), f(c.2), f(c.3))
}

#[derive(Clone, Copy, Debug, PartialEq)]
struct V(f32, f32, f32);

impl V {
    fn of(t: Triple) -> V {
        V(f(t.x), f(t.y), f(t.z))
    }

    fn triple(self) -> Triple {
        Triple::new(n(self.0), n(self.1), n(self.2))
    }

    fn dot(self, o: V) -> f32 {
        self.0 * o.0 + self.1 * o.1 + self.2 * o.2
    }

    fn plus(self, o: V) -> V {
        V(self.0 + o.0, self.1 + o.1, self.2 + o.2)
    }

    fn minus(self, o: V) -> V {
        V(self.0 - o.0, self.1 - o.1, self.2 - o.2)
    }

    fn times(self, c: f32) -> V {
        V(self.0 * c, self.1 * c, self.2 * c)
    }

    fn unit(self) -> V {
        let m = self.dot(self).sqrt();
        V(self.0 / m, self.1 / m, self.2 / m)
    }
}

fn ray(origin: V, direction: V) -> Ray {
    Ray { origin: origin.triple(), direction: direction.triple() }
}

fn at(r: &Ray, t: f32) -> V {
    V::of(r.origin).plus(V::of(r.direction).times(t))
}

fn term(cosine: f32, light: Rgba, material: Rgba) -> RGBA {
    let d = f(Scalar::zero().max(n(cosine)));
    color((d * light.0 * material.0, d * light.1 * material.1, d * light.2 * material.2, 0.0))
}

#[derive(Clone, Copy)]
struct Floats;

impl Arithmetic for Floats {
    fn point_at(&self, r: &Ray, distance: Scalar) -> Triple {
        at(r, f(distance)).triple()
    }

    fn sphere_quadratic(&self, sphere: &Sphere, r: &Ray) -> Quadratic {
        let offset = V::of(r.origin).minus(V::of(sphere.center()));
        let radius = f(sphere.radius());
        let c = offset.dot(offset) - radius * radius;
        let b = 2.0 * offset.dot(V::of(r.direction));
        let discriminant = b * b - 4.0 * c;
        let sqrt = discriminant.sqrt();
        Quadratic {
            discriminant: n(discriminant),
            double: n(-b / 2.0),
            upper: n((-b + sqrt) / 2.0),
            lower: n((-b - sqrt) / 2.0),
        }
    }

    fn sphere_normal(&self, sphere: &Sphere, point: &Triple) -> Triple {
        V::of(*point).minus(V::of(sphere.center())).unit().triple()
    }

    fn normal_color(&self, normal: &Triple) -> RGBA {
        let m = V::of(*normal);
        color(((m.0 + 1.0) / 2.0, (m.1 + 1.0) / 2.0, (m.2 + 1.0) / 2.0, 1.0))
    }

    fn plane_approach(&self, p: &Plane, r: &Ray) -> Approach {
        let normal = V::of(p.normal);
        let denom = normal.dot(V::of(r.direction));
        let normal_distance = V::of(p.reference).minus(V::of(r.origin)).dot(normal);
        Approach { denom: n(denom), ray_distance: n(normal_distance / denom) }
    }

    fn in_plane(&self, p: &Plane, vector: &Triple) -> InPlane {
        let normal = V::of(p.normal);
        let vector = V::of(*vector);
        let part = vector.minus(normal.times(vector.dot(normal)));
        InPlane { axis: part.unit().triple(), extent: n(part.dot(part).sqrt()) }
    }

    fn uv_coords(&self, s: &PlaneSegment, point: &Triple) -> (Scalar, Scalar) {
        let delta = V::of(*point).minus(V::of(s.plane().reference));
        (n(delta.dot(V::of(s.u_vector()))), n(delta.dot(V::of(s.v_vector()))))
    }

    fn ambient(&self, material: RGBA) -> RGBA {
        let m = floats(material);
        color((m.0 * 0.1, m.1 * 0.1, m.2 * 0.1, 1.0))
    }

    fn directional(&self, point: &Triple, normal: &Triple, material: RGBA, l: &UniformLight) -> Illumination {
        let direction = V::of(l.direction);
        Illumination {
            shadow_ray: ray(V::of(*point).minus(direction.times(0.01)), direction.times(-1.0)),
            diffuse: term(V::of(*normal).dot(direction.times(-1.0)), floats(l.color), floats(material)),
        }
    }

    fn positional(&self, point: &Triple, normal: &Triple, material: RGBA, l: &PointLight) -> Illumination {
        let direction = V::of(l.position).minus(V::of(*point)).unit();
        Illumination {
            shadow_ray: ray(V::of(*point).plus(direction.times(0.01)), direction),
            diffuse: term(V::of(*normal).dot(direction), floats(l.color), floats(material)),
        }
    }

    fn blend(&self, sum: RGBA, term: RGBA) -> RGBA {
        let (r, g, b, a) = floats(sum);
        let (dr, dg, db, _) = floats(term);
        color((r + dr, g + dg, b + db, a))
    }
}

fn segment(plane: Plane, u_vec: V, v_vec: V, w: f32, h: f32) -> Result<PlaneSegment, BasisError> {
    PlaneSegment::new(plane, u_vec.triple(), v_vec.triple(), n(w), n(h), &Floats)
}

fn sphere(center: V, radius: f32) -> NormalSphere<Floats> {
    NormalSphere::new(Sphere::new(center.triple(), n(radius)), Floats)
}

fn ball(center: V, radius: f32) -> Object {
    Box::new(sphere(center, radius))
}

fn squares(u: Scalar, v: Scalar) -> RGBA {
    let x = (f(u) * 10.0).trunc() as u8;
    let y = (f(v) * 10.0).trunc() as u8;
    if (x + y) % 2 == 0 {
        color((1.0, 1.0, 1.0, 1.0))
    } else {
        color((0.0, 0.0, 0.0, 0.0))
    }
}

fn white(_: Scalar, _: Scalar) -> RGBA {
    color((1.0, 1.0, 1.0, 1.0))
}

fn ground() -> Plane {
    Plane { normal: V(0.0, 1.0, 0.0).triple(), reference: V(-1.0, -1.0, -1.0).triple() }
}

fn floor(paint: fn(Scalar, Scalar) -> RGBA) -> Object {
    let patch = segment(ground(), V(1.0, 0.0, 0.0), V(0.0, 0.0, 1.0), 2.0, 2.0).unwrap();
    Box::new(ColoredPlane::new(patch, paint, Floats))
}

fn gradient(r: &Ray) -> RGBA {
    let d = V::of(r.direction);
    color(((d.0 + 1.0) / 2.0, (d.1 + 1.0) / 2.0, (d.2 + 1.0) / 2.0, 1.0))
}

/// Writes down the order in which lights are added: each light is a digit,
/// and adding one appends its digit to the sum.
struct Journal;

impl Arithmetic for Journal {
    fn point_at(&self, r: &Ray, distance: Scalar) -> Triple {
        at(r, f(distance)).triple()
    }

    fn sphere_quadratic(&self, sphere: &Sphere, r: &Ray) -> Quadratic {
        Floats.sphere_quadratic(sphere, r)
    }

    fn sphere_normal(&self, sphere: &Sphere, point: &Triple) -> Triple {
        Floats.sphere_normal(sphere, point)
    }

    fn normal_color(&self, normal: &Triple) -> RGBA {
        Floats.normal_color(normal)
    }

    fn plane_approach(&self, p: &Plane, r: &Ray) -> Approach {
        Floats.plane_approach(p, r)
    }

    fn in_plane(&self, p: &Plane, vector: &Triple) -> InPlane {
        Floats.in_plane(p, vector)
    }

    fn uv_coords(&self, s: &PlaneSegment, point: &Triple) -> (Scalar, Scalar) {
        Floats.uv_coords(s, point)
    }

    fn ambient(&self, _: RGBA) -> RGBA {
        color((0.0, 0.0, 0.0, 1.0))
    }

    fn directional(&self, point: &Triple, _: &Triple, _: RGBA, l: &UniformLight) -> Illumination {
        Illumination {
            shadow_ray: ray(V::of(*point), V::of(l.direction).times(-1.0)),
            diffuse: l.color,
        }
    }

    fn positional(&self, point: &Triple, _: &Triple, _: RGBA, l: &PointLight) -> Illumination {
        Illumination {
            shadow_ray: ray(V::of(*point), V::of(l.position).minus(V::of(*point)).unit()),
            diffuse: l.color,
        }
    }

    fn blend(&self, sum: RGBA, term: RGBA) -> RGBA {
        color((f(sum.0) * 10.0 + f(term.0), 0.0, 0.0, 1.0))
    }
}

/// Fails the test where anything is shaded.
struct Never;

impl Arithmetic for Never {
    fn point_at(&self, _: &Ray, _: Scalar) -> Triple {
        panic!("nothing was hit")
    }

    fn sphere_quadratic(&self, sphere: &Sphere, r: &Ray) -> Quadratic {
        Floats.sphere_quadratic(sphere, r)
    }

    fn sphere_normal(&self, sphere: &Sphere, point: &Triple) -> Triple {
        Floats.sphere_normal(sphere, point)
    }

    fn normal_color(&self, normal: &Triple) -> RGBA {
        Floats.normal_color(normal)
    }

    fn plane_approach(&self, p: &Plane, r: &Ray) -> Approach {
        Floats.plane_approach(p, r)
    }

    fn in_plane(&self, p: &Plane, vector: &Triple) -> InPlane {
        Floats.in_plane(p, vector)
    }

    fn uv_coords(&self, s: &PlaneSegment, point: &Triple) -> (Scalar, Scalar) {
        Floats.uv_coords(s, point)
    }

    fn ambient(&self, _: RGBA) -> RGBA {
        panic!("nothing was hit")
    }

    fn directional(&self, _: &Triple, _: &Triple, _: RGBA, _: &UniformLight) -> Illumination {
        panic!("nothing was hit")
    }

    fn positional(&self, _: &Triple, _: &Triple, _: RGBA, _: &PointLight) -> Illumination {
        panic!("nothing was hit")
    }

    fn blend(&self, _: RGBA, _: RGBA) -> RGBA {
        panic!("nothing was hit")
    }
}

fn lit(scene: &World, point: V, normal: V, material: Rgba) -> Rgba {
    floats(scene.get_diffuse(&point.triple(), &normal.triple(), color(material), &Floats))
}

fn see(scene: &World, r: &Ray) -> Rgba {
    floats(scene.get_color(r, &Floats))
}

fn demo() -> World {
    let mut scene: World = Scene::new();
    scene.set_skybox(Box::new(gradient));
    scene.add_directional_light(UniformLight {
        color: color((0.0, 1.0, 0.0, 1.0)),
        direction: V(0.0, -1.0, 0.0).triple(),
    });
    scene.add_point_light(PointLight {
        color: color((1.0, 0.0, 0.0, 1.0)),
        position: V(0.75, -0.75, -0.75).triple(),
    });
    scene.add_object(ball(V(0.0, 0.0, 0.0), 1.0));
    scene.add_object(floor(squares));
    scene
}

fn camera() -> V {
    V(0.0, 0.0, -2.0)
}

fn pixel(px: usize, py: usize) -> Ray {
    let (width, height) = (400usize, 400usize);
    let y_idx = 1.0 - py as f32 / height as f32;
    let x_idx = px as f32 / width as f32;
    let target = V(x_idx * 3.0 - 1.5, y_idx * 3.0 - 1.5, 0.0);
    ray(camera(), target.minus(camera()).unit())
}

fn towards(target: V) -> Ray {
    ray(camera(), target.minus(camera()).unit())
}

fn close(a: f32, b: f32) -> bool {
    (a - b).abs() < 1e-5
}

#[test]
fn sphere_roots_lie_on_the_sphere() {
    let s = sphere(V(0.5, -0.25, 3.0), 1.5);
    let r = ray(V(0.0, 0.0, -2.0), V(0.1, 0.0, 1.0).unit());
    let ts = s.intersect(&r);
    assert_eq!(ts.len(), 2);
    for t in ts {
        let p = at(&r, f(t));
        let d = p.minus(V(0.5, -0.25, 3.0));
        assert!(close(d.dot(d).sqrt(), 1.5), "distance {}", d.dot(d).sqrt());
    }
}

#[test]
fn sphere_roots_through_the_centre() {
    let s = sphere(V(0.0, 0.0, 0.0), 1.0);
    let r = ray(V(0.0, 0.0, -2.0), V(0.0, 0.0, 1.0));
    assert_eq!(s.intersect(&r), vec![n(3.0), n(1.0)]);
}

#[test]
fn sphere_tangent_ray_has_one_root() {
    let s = sphere(V(0.0, 0.0, 0.0), 1.0);
    let r = ray(V(1.0, 0.0, -2.0), V(0.0, 0.0, 1.0));
    assert_eq!(s.intersect(&r), vec![n(2.0)]);
}

#[test]
fn sphere_missed_has_no_root() {
    let s = sphere(V(0.0, 0.0, 0.0), 1.0);
    let r = ray(V(2.0, 0.0, -2.0), V(0.0, 0.0, 1.0));
    assert_eq!(s.intersect(&r), vec![]);
}

#[test]
fn sphere_behind_the_origin_has_negative_roots() {
    let s = sphere(V(0.0, 0.0, 0.0), 1.0);
    let r = ray(V(0.0, 0.0, 2.0), V(0.0, 0.0, 1.0));
    assert_eq!(s.intersect(&r), vec![n(-1.0), n(-3.0)]);
    let mut scene: World = Scene::new();
    scene.add_object(Box::new(s));
    assert_eq!(scene.nearest(&r), None);
}

#[test]
fn plane_from_behind_is_never_met() {
    let p = floor(white);
    for origin in [V(0.0, -2.0, 0.0), V(0.0, 5.0, 0.0), V(0.3, -1.0, 0.2), V(-9.0, -1.5, 4.0)] {
        for direction in [V(0.0, 1.0, 0.0), V(0.3, 0.1, -0.5).unit(), V(0.0, 1e-6, 1.0).unit()] {
            assert_eq!(p.intersect(&ray(origin, direction)), vec![]);
        }
    }
}

#[test]
fn plane_from_the_front_is_met_inside_its_bounds() {
    let p = floor(white);
    assert_eq!(p.intersect(&ray(V(0.0, 1.0, 0.0), V(0.0, -1.0, 0.0))), vec![n(2.0)]);
    assert_eq!(p.intersect(&ray(V(0.0, -3.0, 0.0), V(0.0, -1.0, 0.0))), vec![n(-2.0)]);
    assert_eq!(p.intersect(&ray(V(1.5, 1.0, 0.0), V(0.0, -1.0, 0.0))), vec![]);
}

#[test]
fn plane_segment_edges_are_outside() {
    let p = floor(white);
    let down = V(0.0, -1.0, 0.0);
    assert_eq!(p.intersect(&ray(V(-1.0, 0.0, -1.0), down)), vec![]);
    assert_eq!(p.intersect(&ray(V(1.0, 0.0, 0.0), down)), vec![]);
    assert_eq!(p.intersect(&ray(V(0.0, 0.0, 1.0), down)), vec![]);
    assert_eq!(p.intersect(&ray(V(-1.0, 0.0, 0.0), down)), vec![]);
    assert_eq!(p.intersect(&ray(V(0.0, 0.0, -1.0), down)), vec![]);
    assert_eq!(p.intersect(&ray(V(0.5, 0.0, -0.5), down)), vec![n(1.0)]);
}

#[test]
fn nearer_of_two_overlapping_spheres_wins() {
    let r = ray(V(0.0, 0.0, -5.0), V(0.0, 0.0, 1.0));
    let mut scene: World = Scene::new();
    scene.add_object(ball(V(0.0, 0.0, 0.5), 1.0));
    scene.add_object(ball(V(0.0, 0.0, 0.0), 1.0));
    assert_eq!(scene.nearest(&r), Some((n(4.0), 1)));
    let mut scene: World = Scene::new();
    scene.add_object(ball(V(0.0, 0.0, 0.0), 1.0));
    scene.add_object(ball(V(0.0, 0.0, 0.5), 1.0));
    assert_eq!(scene.nearest(&r), Some((n(4.0), 0)));
}

#[test]
fn equal_hits_go_to_the_object_added_first() {
    let r = ray(V(0.0, 0.0, -5.0), V(0.0, 0.0, 1.0));
    let mut scene: World = Scene::new();
    scene.add_object(ball(V(0.0, 0.0, 0.0), 1.0));
    scene.add_object(ball(V(0.0, 0.0, 0.0), 1.0));
    scene.add_object(ball(V(0.0, 0.0, 1.0), 2.0));
    assert_eq!(scene.nearest(&r), Some((n(4.0), 0)));
    let (t, o) = scene.cast_ray(&r).unwrap();
    assert_eq!(t, n(4.0));
    assert!(std::ptr::eq(o, scene.object(0).unwrap()));
}

#[test]
fn cast_ray_hands_out_the_object_that_was_hit() {
    let scene = demo();
    let (t, o) = scene.cast_ray(&towards(V(0.0, 0.0, 0.0))).unwrap();
    assert_eq!(t, n(1.0));
    assert!(std::ptr::eq(o, scene.object(0).unwrap()));
    let (_, o) = scene.cast_ray(&towards(V(0.0, -1.0, -0.5))).unwrap();
    assert!(std::ptr::eq(o, scene.object(1).unwrap()));
    assert!(scene.cast_ray(&towards(V(0.0, 1.4, 0.0))).is_none());
}

#[test]
fn empty_scene_is_never_hit() {
    let scene: World = Scene::new();
    assert_eq!(scene.object_count(), 0);
    assert!(scene.object(0).is_none());
    assert_eq!(scene.nearest(&towards(V(0.0, 0.0, 0.0))), None);
    assert!(scene.cast_ray(&towards(V(0.0, 0.0, 0.0))).is_none());
}

#[test]
fn scene_keeps_objects_and_lights_in_order() {
    let scene = demo();
    assert_eq!(scene.object_count(), 2);
    assert!(scene.object(1).is_some());
    assert!(scene.object(2).is_none());
    assert_eq!(scene.lights_at_points().len(), 1);
    assert_eq!(scene.lights_at_points()[0].position, V(0.75, -0.75, -0.75).triple());
    assert_eq!(scene.lights_along_directions().len(), 1);
    assert_eq!(scene.lights_along_directions()[0].color, color((0.0, 1.0, 0.0, 1.0)));
}

#[test]
fn sky_is_blank_until_it_is_set() {
    let mut scene: World = Scene::new();
    let r = towards(V(0.3, 0.2, 0.0));
    assert_eq!(scene.sky_color(&r), color((0.0, 0.0, 0.0, 0.0)));
    assert_eq!(see(&scene, &r), (0.0, 0.0, 0.0, 0.0));
    scene.set_skybox(Box::new(gradient));
    assert_eq!(scene.sky_color(&r), gradient(&r));
    scene.set_skybox(Box::new(|_| color((0.25, 0.5, 0.75, 1.0))));
    assert_eq!(scene.sky_color(&r), color((0.25, 0.5, 0.75, 1.0)));
}

#[test]
fn a_ray_that_hits_nothing_sees_exactly_the_sky() {
    let scene = demo();
    for r in [pixel(0, 0), pixel(399, 0), pixel(200, 10), towards(V(1.4, 1.4, 0.0))] {
        assert_eq!(scene.nearest(&r), None);
        assert_eq!(scene.get_color(&r, &Never), gradient(&r));
    }
}

#[test]
fn a_ray_that_hits_is_shaded_and_not_sky() {
    let scene = demo();
    let r = pixel(200, 200);
    assert_ne!(scene.get_color(&r, &Floats), gradient(&r));
    let point = V(0.0, 0.0, -1.0);
    let material = (0.5, 0.5, 0.0, 1.0);
    assert_eq!(see(&scene, &r), lit(&scene, point, point, material));
}

fn digit(d: f32) -> RGBA {
    color((d, 0.0, 0.0, 0.0))
}

fn journal_scene() -> World {
    let mut scene: World = Scene::new();
    scene.add_directional_light(UniformLight { color: digit(1.0), direction: V(0.0, -1.0, 0.0).triple() });
    scene.add_point_light(PointLight { color: digit(3.0), position: V(0.0, 9.0, 0.0).triple() });
    scene.add_directional_light(UniformLight { color: digit(2.0), direction: V(0.0, 1.0, 0.0).triple() });
    scene.add_point_light(PointLight { color: digit(4.0), position: V(0.0, -9.0, 0.0).triple() });
    scene
}

fn journal(scene: &World) -> f32 {
    let origin = V(0.0, 0.0, 0.0).triple();
    f(scene.get_diffuse(&origin, &origin, digit(0.0), &Journal).0)
}

#[test]
fn lights_are_added_in_order_directional_first() {
    assert_eq!(journal(&journal_scene()), 1234.0);
}

#[test]
fn occluded_lights_add_exactly_nothing() {
    let mut above = journal_scene();
    above.add_object(ball(V(0.0, 3.0, 0.0), 1.0));
    assert_eq!(journal(&above), 24.0);
    let mut below = journal_scene();
    below.add_object(ball(V(0.0, -3.0, 0.0), 1.0));
    assert_eq!(journal(&below), 13.0);
    let mut both = journal_scene();
    both.add_object(ball(V(0.0, 3.0, 0.0), 1.0));
    both.add_object(ball(V(0.0, -3.0, 0.0), 1.0));
    assert_eq!(journal(&both), 0.0);
}

#[test]
fn a_scene_without_lights_shows_the_ambient_term() {
    let mut scene: World = Scene::new();
    scene.add_object(ball(V(0.0, 0.0, 0.0), 1.0));
    let seen = lit(&scene, V(0.0, 0.0, -1.0), V(0.0, 0.0, -1.0), (1.0, 0.5, 0.25, 0.75));
    assert_eq!(seen, (0.1, 0.05, 0.025, 1.0));
}

#[test]
fn a_sphere_between_light_and_floor_casts_a_shadow() {
    let lamp = PointLight {
        color: color((1.0, 1.0, 1.0, 1.0)),
        position: V(0.0, 3.0, 0.0).triple(),
    };
    let point = V(0.0, -1.0, 0.0);
    let normal = V(0.0, 1.0, 0.0);
    let material = (1.0, 1.0, 1.0, 1.0);

    let mut open: World = Scene::new();
    open.add_point_light(lamp);
    open.add_object(floor(white));
    let (r, g, b, a) = lit(&open, point, normal, material);
    assert_eq!((r, g, b, a), (0.1 + 1.0, 0.1 + 1.0, 0.1 + 1.0, 1.0));

    let mut shadowed: World = Scene::new();
    shadowed.add_point_light(lamp);
    shadowed.add_object(floor(white));
    shadowed.add_object(ball(V(0.0, 1.0, 0.0), 0.5));
    assert_eq!(lit(&shadowed, point, normal, material), (0.1, 0.1, 0.1, 1.0));
}

#[test]
fn a_directional_light_is_shadowed_too() {
    let sun = UniformLight {
        color: color((0.0, 1.0, 0.0, 1.0)),
        direction: V(0.0, -1.0, 0.0).triple(),
    };
    let point = V(0.5, -1.0, 0.5);
    let normal = V(0.0, 1.0, 0.0);
    let material = (0.5, 0.5, 0.5, 1.0);

    let mut open: World = Scene::new();
    open.add_directional_light(sun);
    open.add_object(floor(white));
    assert_eq!(lit(&open, point, normal, material), (0.05, 0.05 + 0.5, 0.05, 1.0));

    let mut shadowed: World = Scene::new();
    shadowed.add_directional_light(sun);
    shadowed.add_object(floor(white));
    shadowed.add_object(ball(V(0.5, 2.0, 0.5), 0.25));
    assert_eq!(lit(&shadowed, point, normal, material), (0.05, 0.05, 0.05, 1.0));
}

#[test]
fn a_light_behind_the_surface_adds_nothing() {
    let mut scene: World = Scene::new();
    scene.add_directional_light(UniformLight {
        color: color((1.0, 1.0, 1.0, 1.0)),
        direction: V(0.0, 1.0, 0.0).triple(),
    });
    let seen = lit(&scene, V(0.0, 0.0, 0.0), V(0.0, 1.0, 0.0), (1.0, 0.5, 0.25, 1.0));
    assert_eq!(seen, (0.1, 0.05, 0.025, 1.0));
}

#[test]
fn image_centre_shows_the_sphere() {
    let scene = demo();
    let r = pixel(200, 200);
    assert_eq!(scene.nearest(&r), Some((n(1.0), 0)));
    let obj = scene.object(0).unwrap();
    let point = at(&r, 1.0);
    assert_eq!(point, V(0.0, 0.0, -1.0));
    assert_eq!(floats(obj.material_color(&r, &point.triple())), (0.5, 0.5, 0.0, 1.0));
    assert_eq!(V::of(obj.normal(&point.triple())), V(0.0, 0.0, -1.0));
    let seen = see(&scene, &r);
    assert_ne!(seen, floats(gradient(&r)));
    let to_lamp = V(0.75, -0.75, -0.75).minus(point).unit();
    let cosine = V(0.0, 0.0, -1.0).dot(to_lamp);
    assert!(cosine < 0.0);
    assert_eq!(seen, (0.5 * 0.1, 0.5 * 0.1, 0.0, 1.0));
}

#[test]
fn pixels_off_the_silhouette_show_the_sky() {
    let scene = demo();
    for (px, py) in [(0, 0), (399, 0), (0, 399), (399, 399), (200, 5), (5, 200)] {
        let r = pixel(px, py);
        let d = V::of(r.direction);
        assert_eq!(see(&scene, &r), ((d.0 + 1.0) / 2.0, (d.1 + 1.0) / 2.0, (d.2 + 1.0) / 2.0, 1.0));
    }
}

#[test]
fn board_alternates_ten_cells_per_unit() {
    let scene = demo();
    let obj = scene.object(1).unwrap();
    for k in 0..20usize {
        let x = -0.95 + 0.1 * k as f32;
        let r = towards(V(x, -1.0, -0.55));
        let (t, i) = scene.nearest(&r).unwrap();
        assert_eq!(i, 1);
        let point = at(&r, f(t));
        let seen = floats(obj.material_color(&r, &point.triple()));
        let want = if (k + 4) % 2 == 0 { (1.0, 1.0, 1.0, 1.0) } else { (0.0, 0.0, 0.0, 0.0) };
        assert_eq!(seen, want, "cell {}", k);
    }
    assert_eq!(squares(n(0.05), n(0.05)), color((1.0, 1.0, 1.0, 1.0)));
    assert_eq!(squares(n(0.15), n(0.05)), color((0.0, 0.0, 0.0, 0.0)));
    assert_eq!(squares(n(0.15), n(0.15)), color((1.0, 1.0, 1.0, 1.0)));
    assert_eq!(squares(n(1.95), n(0.05)), color((0.0, 0.0, 0.0, 0.0)));
}

#[test]
fn boxed_objects_behave_as_their_contents() {
    let s = sphere(V(0.0, 0.0, 0.0), 1.0);
    let r = ray(V(0.0, 0.0, -2.0), V(0.0, 0.0, 1.0));
    let direct = s.intersect(&r);
    let boxed: Object = Box::new(s);
    assert_eq!(boxed.intersect(&r), direct);
    assert_eq!(V::of(boxed.normal(&V(0.0, 0.0, -1.0).triple())), V(0.0, 0.0, -1.0));
    assert_eq!(
        floats(boxed.material_color(&r, &V(0.0, 1.0, 0.0).triple())),
        (0.5, 1.0, 0.5, 1.0)
    );
}

#[test]
fn segment_axes_are_the_in_plane_parts_scaled_to_one() {
    let s = segment(ground(), V(3.0, 5.0, 0.0), V(0.0, -2.0, 0.5), 2.0, 4.0).unwrap();
    assert_eq!(V::of(s.u_vector()), V(1.0, 0.0, 0.0));
    assert_eq!(V::of(s.v_vector()), V(0.0, 0.0, 1.0));
    assert_eq!(s.u_width(), n(2.0));
    assert_eq!(s.v_height(), n(4.0));
    assert_eq!(s.plane().reference, V(-1.0, -1.0, -1.0).triple());
}

#[test]
fn segment_is_not_made_of_a_vector_along_the_normal() {
    let r = segment(ground(), V(0.0, 1.0, 0.0), V(0.0, 0.0, 1.0), 2.0, 2.0);
    assert_eq!(r.err(), Some(BasisError::DegenerateU));
    let r = segment(ground(), V(1.0, 0.0, 0.0), V(0.0, -4.0, 0.0), 2.0, 2.0);
    assert_eq!(r.err(), Some(BasisError::DegenerateV));
    let r = segment(ground(), V(0.0, 2.0, 0.0), V(0.0, -4.0, 0.0), 2.0, 2.0);
    assert_eq!(r.err(), Some(BasisError::DegenerateU));
    let r = segment(ground(), V(1.0, 0.0, 0.0), V(1.0, 0.0, 0.0), 2.0, 2.0);
    assert!(r.is_ok());
}

#[test]
fn shapes_intersect_as_their_objects_do() {
    let r = ray(V(0.0, 0.0, -2.0), V(0.0, 0.0, 1.0));
    let s = Sphere::new(V(0.0, 0.0, 0.0).triple(), n(1.0));
    assert_eq!(s.intersect(&r, &Floats), vec![n(3.0), n(1.0)]);
    assert_eq!(V::of(s.normal(&V(0.0, 2.0, 0.0).triple(), &Floats)), V(0.0, 1.0, 0.0));
    let down = ray(V(5.0, 1.0, 5.0), V(0.0, -1.0, 0.0));
    assert_eq!(ground().intersect(&down, &Floats), vec![n(2.0)]);
    let patch = segment(ground(), V(1.0, 0.0, 0.0), V(0.0, 0.0, 1.0), 2.0, 2.0).unwrap();
    assert_eq!(patch.intersect(&down, &Floats), vec![]);
    assert_eq!(patch.uv_coords(&V(0.0, -1.0, 0.5).triple(), &Floats), (n(1.0), n(1.5)));
}

#[test]
fn colored_plane_has_the_normal_of_its_plane_everywhere() {
    let p = floor(white);
    assert_eq!(p.normal(&V(0.0, -1.0, 0.0).triple()), V(0.0, 1.0, 0.0).triple());
    assert_eq!(p.normal(&V(9.0, 9.0, 9.0).triple()), V(0.0, 1.0, 0.0).triple());
}
