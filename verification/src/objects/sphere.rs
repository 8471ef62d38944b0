use vstd::prelude::*;
use crate::geometry::scalar::Scalar;
use crate::geometry::vector::{Point, Vector};
use crate::objects::aabb::Aabb;
use crate::objects::hit_record::HitRecord;

verus! {

/// A sphere. A negative radius turns its normals inwards.
pub struct Sphere<M> {
    pub center: Point,
    pub radius: Scalar,
    pub material: M,
}

/// One of the two places at which a ray's line crosses a sphere, as the
/// arithmetic brings it: the ray parameter `t`, the point `p`, the normal
/// there that points away from the centre, the texture coordinates `u` and
/// `v`, and the dot product `dot` of the ray's direction with that normal.
#[derive(Clone, Copy, Debug, PartialEq, Eq, Structural)]
pub struct Crossing {
    pub t: Scalar,
    pub p: Point,
    pub outward_normal: Vector,
    pub u: Scalar,
    pub v: Scalar,
    pub dot: Scalar,
}

/// The crossing that counts as the hit: none unless the discriminant of the
/// quadratic is above zero; else the nearer of the two if it lies strictly
/// inside the window, else the farther if that one does.
pub open spec fn first_inside(
    discriminant: Scalar,
    near: Crossing,
    far: Crossing,
    t_min: Scalar,
    t_max: Scalar,
) -> Option<Crossing> {
    if !discriminant.spec_gt(Scalar { bits: 0 }) {
        None
    } else if t_min.spec_lt(near.t) && near.t.spec_lt(t_max) {
        Some(near)
    } else if t_min.spec_lt(far.t) && far.t.spec_lt(t_max) {
        Some(far)
    } else {
        None
    }
}

/// The record of a hit at a crossing, its normal turned towards the ray.
pub open spec fn record_at<M>(at: Crossing, material: M) -> HitRecord<M> {
    (HitRecord {
        t: at.t,
        u: at.u,
        v: at.v,
        p: at.p,
        normal: at.outward_normal,
        material,
        front_face: true,
    }).facing(at.dot, at.outward_normal)
}

/// Whether a ray's line crosses a sphere twice: whether the discriminant of
/// the quadratic is above zero.
pub fn hit_sphere(discriminant: Scalar) -> (b: bool)
    ensures
        b == discriminant.spec_gt(Scalar { bits: 0 }),
{
    discriminant.gt(Scalar::zero())
}

/// Picks the crossing that counts as the hit.
pub fn choose_crossing(
    discriminant: Scalar,
    near: Crossing,
    far: Crossing,
    t_min: Scalar,
    t_max: Scalar,
) -> (at: Option<Crossing>)
    ensures
        at == first_inside(discriminant, near, far, t_min, t_max),
{
    if discriminant.gt(Scalar::zero()) {
        if t_min.lt(near.t) && near.t.lt(t_max) {
            return Some(near);
        }
        if t_min.lt(far.t) && far.t.lt(t_max) {
            return Some(far);
        }
    }
    None
}

impl<M> Sphere<M> {
    pub fn new(center: Point, radius: Scalar, material: M) -> (s: Self)
        ensures
            s.center == center,
            s.radius == radius,
            s.material == material,
    {
        Self { center, radius, material }
    }

    /// The box around the sphere. `a` is the centre less the radius on every
    /// axis and `b` the centre plus the radius; with a negative radius `a` is
    /// the greater of the two, and the box is the same.
    pub fn bounding_box(&self, a: Point, b: Point) -> (r: Aabb)
        ensures
            r == Aabb::spanning(a, b),
    {
        Aabb::between(a, b)
    }

    /// The hit of a ray on the sphere inside the window, if there is one.
    /// `discriminant` is that of the quadratic for the ray and the sphere,
    /// `near` and `far` are the crossings at its smaller and its larger root.
    pub fn hit(&self, discriminant: Scalar, near: Crossing, far: Crossing, t_min: Scalar, t_max: Scalar) -> (found:
        Option<HitRecord<&M>>)
        ensures
            found == match first_inside(discriminant, near, far, t_min, t_max) {
                Some(at) => Some(record_at(at, &self.material)),
                None => None,
            },
    {
        match choose_crossing(discriminant, near, far, t_min, t_max) {
            Some(at) => {
                let mut hit_rec = HitRecord {
                    t: at.t,
                    u: at.u,
                    v: at.v,
                    p: at.p,
                    normal: at.outward_normal,
                    material: &self.material,
                    front_face: true,
                };
                hit_rec.set_face_normal(at.dot, at.outward_normal);
                Some(hit_rec)
            },
            None => None,
        }
    }
}

/// A ray that runs at a sphere from outside, with both crossings ahead of it
/// in the window, hits at the nearer one and finds the normal as it points
/// away from the centre.
pub proof fn lemma_front_hit<M>(
    discriminant: Scalar,
    near: Crossing,
    far: Crossing,
    t_min: Scalar,
    t_max: Scalar,
    material: M,
)
    requires
        discriminant.spec_gt(Scalar { bits: 0 }),
        t_min.spec_lt(near.t),
        near.t.spec_lt(t_max),
        near.dot.spec_lt(Scalar { bits: 0 }),
    ensures
        first_inside(discriminant, near, far, t_min, t_max) == Some(near),
        record_at(near, material).t == near.t,
        record_at(near, material).normal == near.outward_normal,
        record_at(near, material).front_face,
{
}

/// With the nearer crossing at or before the window's start, the hit is at
/// the farther one, if that lies inside; a ray that leaves the sphere there
/// finds the normal turned round to face it, and not the front.
pub proof fn lemma_back_hit<M>(
    discriminant: Scalar,
    near: Crossing,
    far: Crossing,
    t_min: Scalar,
    t_max: Scalar,
    material: M,
)
    requires
        discriminant.spec_gt(Scalar { bits: 0 }),
        near.t.spec_le(t_min),
        t_min.spec_lt(far.t),
        far.t.spec_lt(t_max),
        far.dot.spec_gt(Scalar { bits: 0 }),
    ensures
        first_inside(discriminant, near, far, t_min, t_max) == Some(far),
        record_at(far, material).t == far.t,
        record_at(far, material).p == far.p,
        record_at(far, material).normal == far.outward_normal.spec_neg(),
        !record_at(far, material).front_face,
{
}

} // verus!
