//! The shapes, and which candidate intersections each of them keeps.
//!
//! A shape's candidates are computed from dot products, a quotient or a square
//! root, by an [`Arithmetic`]. What is decided here is which of them stand.

use vstd::prelude::*;
use crate::arithmetic::{Approach, Arithmetic, InPlane, Quadratic};
use crate::ray::{Ray, Triple};
use crate::scalar::Scalar;

verus! {

/// Bit pattern of `-1e-10`: a ray meets a plane only where the dot product of
/// the plane's normal and the ray's direction is below it.
pub const FACING_LIMIT_BITS: u32 = 0xaedb_e6ff;

/// Bit pattern of `1e-10`: the least length of the in-plane part of a vector
/// that can serve as an axis of a plane segment.
pub const AXIS_LIMIT_BITS: u32 = 0x2edb_e6ff;

/// The points at distance `radius` from `center`.
#[derive(Clone, Copy, Debug)]
pub struct Sphere {
    center: Triple,
    radius: Scalar,
}

impl Sphere {
    pub closed spec fn spec_center(&self) -> Triple {
        self.center
    }

    pub closed spec fn spec_radius(&self) -> Scalar {
        self.radius
    }

    /// The roots of `t^2 + b t + c = 0` that stand, given the discriminant
    /// `b^2 - 4c`: none where it is below zero; `double`, which is `-b / 2`,
    /// where it is zero; else `upper` and `lower`, which are
    /// `(-b + sqrt) / 2` and `(-b - sqrt) / 2`, in that order.
    pub open spec fn spec_roots(
        discriminant: Scalar,
        double: Scalar,
        upper: Scalar,
        lower: Scalar,
    ) -> Seq<Scalar> {
        if discriminant.below(Scalar { bits: 0 }) {
            seq![]
        } else if discriminant.equals(Scalar { bits: 0 }) {
            seq![double]
        } else {
            seq![upper, lower]
        }
    }

    /// The sphere with the given centre and radius.
    pub fn new(center: Triple, radius: Scalar) -> (s: Sphere)
        ensures
            s.spec_center() == center,
            s.spec_radius() == radius,
    {
        Sphere { center, radius }
    }

    /// The centre.
    pub fn center(&self) -> (c: Triple)
        ensures
            c == self.spec_center(),
    {
        self.center
    }

    /// The radius.
    pub fn radius(&self) -> (r: Scalar)
        ensures
            r == self.spec_radius(),
    {
        self.radius
    }

    /// Whether `ts` can be the parameters at which `ray` meets the sphere:
    /// the roots that stand of the quadratic that `math` gives.
    pub open spec fn meets<A: Arithmetic>(&self, math: A, ray: Ray, ts: Seq<Scalar>) -> bool {
        exists|q: Quadratic|
            #[trigger] call_ensures(A::sphere_quadratic, (&math, self, &ray), q) && ts
                == Sphere::spec_roots(q.discriminant, q.double, q.upper, q.lower)
    }

    /// The parameters at which `ray` meets the sphere, those behind the ray's
    /// origin included: none, one, or two in no order.
    pub fn intersect<A: Arithmetic>(&self, ray: &Ray, math: &A) -> (ts: Vec<Scalar>)
        ensures
            self.meets(*math, *ray, ts@),
    {
        let q = math.sphere_quadratic(self, ray);
        Sphere::roots(q.discriminant, q.double, q.upper, q.lower)
    }

    /// The unit vector from the centre to `point`.
    pub fn normal<A: Arithmetic>(&self, point: &Triple, math: &A) -> (n: Triple)
        ensures
            call_ensures(A::sphere_normal, (math, self, point), n),
    {
        math.sphere_normal(self, point)
    }

    /// Computes [`Sphere::spec_roots`].
    pub fn roots(discriminant: Scalar, double: Scalar, upper: Scalar, lower: Scalar) -> (ts: Vec<
        Scalar,
    >)
        ensures
            ts@ == Sphere::spec_roots(discriminant, double, upper, lower),
    {
        let mut ts: Vec<Scalar> = Vec::new();
        if discriminant.lt(Scalar::zero()) {
        } else if discriminant.same(Scalar::zero()) {
            ts.push(double);
        } else {
            ts.push(upper);
            ts.push(lower);
        }
        assert(ts@ =~= Sphere::spec_roots(discriminant, double, upper, lower));
        ts
    }
}

/// The plane through `reference` that is perpendicular to `normal`. It is seen
/// from the side that `normal` points to, and from no other.
#[derive(Clone, Copy, Debug)]
pub struct Plane {
    pub normal: Triple,
    pub reference: Triple,
}

impl Plane {
    /// What a ray meets of a plane, given `denom`, the dot product of the
    /// normal and the ray's direction, and `ray_distance`, the parameter at
    /// which the ray's line crosses the plane: nothing where `denom >= -1e-10`,
    /// which holds of a ray that runs along the plane, nearly so, or from its
    /// back; else `ray_distance`.
    pub open spec fn spec_crossing(denom: Scalar, ray_distance: Scalar) -> Seq<Scalar> {
        if denom.at_least(Scalar { bits: FACING_LIMIT_BITS }) {
            seq![]
        } else {
            seq![ray_distance]
        }
    }

    /// Whether `ts` can be what `ray` meets of the plane: the crossing that
    /// stands of the approach that `math` gives.
    pub open spec fn meets<A: Arithmetic>(&self, math: A, ray: Ray, ts: Seq<Scalar>) -> bool {
        exists|a: Approach|
            #[trigger] call_ensures(A::plane_approach, (&math, self, &ray), a) && ts
                == Plane::spec_crossing(a.denom, a.ray_distance)
    }

    /// The parameter at which `ray` meets the plane from its front, which may
    /// lie behind the ray's origin; nothing for a ray from the back or along
    /// the plane.
    pub fn intersect<A: Arithmetic>(&self, ray: &Ray, math: &A) -> (ts: Vec<Scalar>)
        ensures
            self.meets(*math, *ray, ts@),
            ts@.len() <= 1,
    {
        let a = math.plane_approach(self, ray);
        Plane::crossing(a.denom, a.ray_distance)
    }

    /// Computes [`Plane::spec_crossing`]. A ray whose direction has a positive
    /// dot product with the normal meets nothing.
    pub fn crossing(denom: Scalar, ray_distance: Scalar) -> (ts: Vec<Scalar>)
        ensures
            ts@ == Plane::spec_crossing(denom, ray_distance),
            (Scalar { bits: 0 }).below(denom) ==> ts@.len() == 0,
    {
        let mut ts: Vec<Scalar> = Vec::new();
        if !denom.ge(Scalar::from_bits(FACING_LIMIT_BITS)) {
            ts.push(ray_distance);
        }
        assert(ts@ =~= Plane::spec_crossing(denom, ray_distance));
        ts
    }
}

/// Why a plane segment could not be made.
#[derive(Clone, Copy, Debug, PartialEq, Eq, Structural)]
pub enum BasisError {
    /// The first axis has no usable part within the plane.
    DegenerateU,
    /// The second axis has no usable part within the plane.
    DegenerateV,
}

/// A rectangle on a plane: the points whose coordinates `(u, v)` along two
/// axes from the plane's reference point lie strictly between 0 and the
/// rectangle's width and height.
#[derive(Clone, Copy, Debug)]
pub struct PlaneSegment {
    plane: Plane,
    u_vector: Triple,
    v_vector: Triple,
    u_width: Scalar,
    v_height: Scalar,
}

impl PlaneSegment {
    pub closed spec fn spec_plane(&self) -> Plane {
        self.plane
    }

    pub closed spec fn spec_u_vector(&self) -> Triple {
        self.u_vector
    }

    pub closed spec fn spec_v_vector(&self) -> Triple {
        self.v_vector
    }

    pub closed spec fn spec_u_width(&self) -> Scalar {
        self.u_width
    }

    pub closed spec fn spec_v_height(&self) -> Scalar {
        self.v_height
    }

    /// Whether the in-plane part of a vector, of the given length, can serve
    /// as an axis: whether the length is `>= 1e-10`.
    pub open spec fn usable(extent: Scalar) -> bool {
        extent.at_least(Scalar { bits: AXIS_LIMIT_BITS })
    }

    /// Whether the point with coordinates `(u, v)` lies in the rectangle:
    /// `0 < u < u_width` and `0 < v < v_height`.
    pub open spec fn spec_contains(&self, u: Scalar, v: Scalar) -> bool {
        &&& (Scalar { bits: 0 }).below(u)
        &&& u.below(self.spec_u_width())
        &&& (Scalar { bits: 0 }).below(v)
        &&& v.below(self.spec_v_height())
    }

    /// Whether `r` is what comes of making a segment from the in-plane parts
    /// `u` and `v` of two vectors: the segment with their axes where both are
    /// usable, and else the error of the first that is not.
    pub open spec fn builds(
        plane: Plane,
        u: InPlane,
        v: InPlane,
        u_width: Scalar,
        v_height: Scalar,
        r: Result<PlaneSegment, BasisError>,
    ) -> bool {
        if !PlaneSegment::usable(u.extent) {
            r == Err::<PlaneSegment, BasisError>(BasisError::DegenerateU)
        } else if !PlaneSegment::usable(v.extent) {
            r == Err::<PlaneSegment, BasisError>(BasisError::DegenerateV)
        } else {
            &&& r is Ok
            &&& r.unwrap().spec_plane() == plane
            &&& r.unwrap().spec_u_vector() == u.axis
            &&& r.unwrap().spec_v_vector() == v.axis
            &&& r.unwrap().spec_u_width() == u_width
            &&& r.unwrap().spec_v_height() == v_height
        }
    }

    /// The segment of `plane` with the axes, width and height given, where
    /// both axes are usable.
    pub fn build(plane: Plane, u: InPlane, v: InPlane, u_width: Scalar, v_height: Scalar) -> (r:
        Result<PlaneSegment, BasisError>)
        ensures
            PlaneSegment::builds(plane, u, v, u_width, v_height, r),
    {
        let limit = Scalar::from_bits(AXIS_LIMIT_BITS);
        if !u.extent.ge(limit) {
            Err(BasisError::DegenerateU)
        } else if !v.extent.ge(limit) {
            Err(BasisError::DegenerateV)
        } else {
            Ok(PlaneSegment { plane, u_vector: u.axis, v_vector: v.axis, u_width, v_height })
        }
    }

    /// The segment of `plane` whose axes are the in-plane parts of `u_vec` and
    /// `v_vec`, scaled to length 1. A vector that runs along the normal has
    /// no usable part within the plane, and no segment is made of it.
    pub fn new<A: Arithmetic>(
        plane: Plane,
        u_vec: Triple,
        v_vec: Triple,
        u_width: Scalar,
        v_height: Scalar,
        math: &A,
    ) -> (r: Result<PlaneSegment, BasisError>)
        ensures
            exists|u: InPlane, v: InPlane|
                call_ensures(A::in_plane, (math, &plane, &u_vec), u) && call_ensures(
                    A::in_plane,
                    (math, &plane, &v_vec),
                    v,
                ) && #[trigger] PlaneSegment::builds(plane, u, v, u_width, v_height, r),
    {
        let u = math.in_plane(&plane, &u_vec);
        let v = math.in_plane(&plane, &v_vec);
        let r = PlaneSegment::build(plane, u, v, u_width, v_height);
        assert(call_ensures(A::in_plane, (math, &plane, &u_vec), u) && call_ensures(
            A::in_plane,
            (math, &plane, &v_vec),
            v,
        ) && PlaneSegment::builds(plane, u, v, u_width, v_height, r));
        r
    }

    /// The plane that the segment lies on.
    pub fn plane(&self) -> (p: Plane)
        ensures
            p == self.spec_plane(),
    {
        self.plane
    }

    /// The first axis.
    pub fn u_vector(&self) -> (u: Triple)
        ensures
            u == self.spec_u_vector(),
    {
        self.u_vector
    }

    /// The second axis.
    pub fn v_vector(&self) -> (v: Triple)
        ensures
            v == self.spec_v_vector(),
    {
        self.v_vector
    }

    /// The extent along the first axis.
    pub fn u_width(&self) -> (w: Scalar)
        ensures
            w == self.spec_u_width(),
    {
        self.u_width
    }

    /// The extent along the second axis.
    pub fn v_height(&self) -> (h: Scalar)
        ensures
            h == self.spec_v_height(),
    {
        self.v_height
    }

    /// Computes [`PlaneSegment::spec_contains`].
    pub fn contains(&self, u: Scalar, v: Scalar) -> (inside: bool)
        ensures
            inside == self.spec_contains(u, v),
    {
        let zero = Scalar::zero();
        u.gt(zero) && u.lt(self.u_width) && v.gt(zero) && v.lt(self.v_height)
    }

    /// The coordinates of `point` along the two axes.
    pub fn uv_coords<A: Arithmetic>(&self, point: &Triple, math: &A) -> (uv: (Scalar, Scalar))
        ensures
            call_ensures(A::uv_coords, (math, self, point), uv),
    {
        math.uv_coords(self, point)
    }

    /// The steps from a ray to what it meets of the segment: what it meets of
    /// the plane; where that is something, the point at which it does, and its
    /// coordinates; and whether those lie in the rectangle.
    pub open spec fn meets_by<A: Arithmetic>(
        &self,
        math: A,
        ray: Ray,
        on_plane: Seq<Scalar>,
        point: Triple,
        uv: (Scalar, Scalar),
        ts: Seq<Scalar>,
    ) -> bool {
        &&& self.spec_plane().meets(math, ray, on_plane)
        &&& if on_plane.len() == 0 {
            ts == on_plane
        } else {
            &&& call_ensures(A::point_at, (&math, &ray, on_plane[0]), point)
            &&& call_ensures(A::uv_coords, (&math, self, &point), uv)
            &&& ts == if self.spec_contains(uv.0, uv.1) {
                on_plane
            } else {
                Seq::<Scalar>::empty()
            }
        }
    }

    /// Whether `ts` can be what `ray` meets of the segment.
    pub open spec fn meets<A: Arithmetic>(&self, math: A, ray: Ray, ts: Seq<Scalar>) -> bool {
        exists|on_plane: Seq<Scalar>, point: Triple, uv: (Scalar, Scalar)|
            #[trigger] self.meets_by(math, ray, on_plane, point, uv, ts)
    }

    /// The parameter at which `ray` meets the segment: the one at which it
    /// meets the plane, where the point at which it does lies strictly within
    /// the rectangle.
    pub fn intersect<A: Arithmetic>(&self, ray: &Ray, math: &A) -> (ts: Vec<Scalar>)
        ensures
            self.meets(*math, *ray, ts@),
    {
        let potential_intersect = self.plane.intersect(ray, math);
        let ghost on_plane = potential_intersect@;
        if potential_intersect.len() == 0 {
            assert(self.meets_by(
                *math,
                *ray,
                on_plane,
                self.u_vector,
                (self.u_width, self.v_height),
                on_plane,
            ));
            potential_intersect
        } else {
            let t = potential_intersect[0];
            let point = math.point_at(ray, t);
            let (u_component, v_component) = self.uv_coords(&point, math);
            let ts = self.crossing(potential_intersect, u_component, v_component);
            assert(self.meets_by(*math, *ray, on_plane, point, (u_component, v_component), ts@));
            ts
        }
    }

    /// What a ray meets of the segment, given what it meets of the segment's
    /// plane and the coordinates `(u, v)` of the point where it does: the
    /// same where that point lies in the rectangle, nothing where it does not.
    pub fn crossing(&self, on_plane: Vec<Scalar>, u: Scalar, v: Scalar) -> (ts: Vec<Scalar>)
        ensures
            ts@ == if self.spec_contains(u, v) {
                on_plane@
            } else {
                Seq::<Scalar>::empty()
            },
    {
        if self.contains(u, v) {
            on_plane
        } else {
            Vec::new()
        }
    }
}

/// A point whose `u` is 0 or the width, or whose `v` is 0 or the height, is
/// outside the rectangle, and so is one with a NaN coordinate; a point strictly
/// between the bounds in both coordinates is inside.
pub proof fn lemma_segment_bounds(s: PlaneSegment, u: Scalar, v: Scalar)
    ensures
        u.equals(Scalar { bits: 0 }) || v.equals(Scalar { bits: 0 }) ==> !s.spec_contains(u, v),
        u.equals(s.spec_u_width()) || v.equals(s.spec_v_height()) ==> !s.spec_contains(u, v),
        u.nan() || v.nan() ==> !s.spec_contains(u, v),
        0 < u.rank() < s.spec_u_width().rank() && 0 < v.rank() < s.spec_v_height().rank()
            && !u.nan() && !v.nan() && !s.spec_u_width().nan() && !s.spec_v_height().nan()
            ==> s.spec_contains(u, v),
{
}

/// A plane is not seen from its back: a ray whose direction has a positive
/// dot product with the normal meets nothing, whatever the parameter at which
/// its line crosses the plane.
pub proof fn lemma_plane_one_sided(denom: Scalar, ray_distance: Scalar)
    requires
        (Scalar { bits: 0 }).below(denom),
    ensures
        Plane::spec_crossing(denom, ray_distance) == Seq::<Scalar>::empty(),
{
}

/// The same of a plane and a ray: where the arithmetic finds the dot product
/// of normal and direction positive, the ray meets nothing of the plane,
/// wherever it starts.
pub proof fn lemma_plane_from_behind<A: Arithmetic>(plane: Plane, math: A, ray: Ray, ts: Seq<Scalar>)
    requires
        plane.meets(math, ray, ts),
        forall|a: Approach| #[trigger]
            call_ensures(A::plane_approach, (&math, &plane, &ray), a) ==> (Scalar { bits: 0 }).below(
                a.denom,
            ),
    ensures
        ts == Seq::<Scalar>::empty(),
{
}

/// Nor is anything met of a segment of such a plane.
pub proof fn lemma_segment_from_behind<A: Arithmetic>(
    segment: PlaneSegment,
    math: A,
    ray: Ray,
    ts: Seq<Scalar>,
)
    requires
        segment.meets(math, ray, ts),
        forall|a: Approach| #[trigger]
            call_ensures(A::plane_approach, (&math, &segment.spec_plane(), &ray), a) ==> (Scalar {
                bits: 0,
            }).below(a.denom),
    ensures
        ts == Seq::<Scalar>::empty(),
{
    let (on_plane, point, uv) = choose|on_plane: Seq<Scalar>, point: Triple, uv: (Scalar, Scalar)|
     #[trigger]
        segment.meets_by(math, ray, on_plane, point, uv, ts);
    lemma_plane_from_behind(segment.spec_plane(), math, ray, on_plane);
}

/// A segment keeps a crossing of its plane exactly where the point of the
/// crossing lies strictly within the rectangle.
pub proof fn lemma_segment_keeps_interior<A: Arithmetic>(
    segment: PlaneSegment,
    math: A,
    ray: Ray,
    on_plane: Seq<Scalar>,
    point: Triple,
    uv: (Scalar, Scalar),
    ts: Seq<Scalar>,
)
    requires
        segment.meets_by(math, ray, on_plane, point, uv, ts),
        on_plane.len() > 0,
    ensures
        segment.spec_contains(uv.0, uv.1) ==> ts == on_plane,
        !segment.spec_contains(uv.0, uv.1) ==> ts.len() == 0,
        uv.0.equals(Scalar { bits: 0 }) || uv.1.equals(Scalar { bits: 0 }) ==> ts.len() == 0,
        uv.0.equals(segment.spec_u_width()) || uv.1.equals(segment.spec_v_height()) ==> ts.len()
            == 0,
{
}

} // verus!
