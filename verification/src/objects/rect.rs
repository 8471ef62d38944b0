use vstd::prelude::*;
use crate::geometry::scalar::{Scalar, ONE_BITS};
use crate::geometry::vector::{Point, Vector};
use crate::objects::hit_record::HitRecord;

verus! {

/// Where a ray's line meets the plane of a rectangle, as the arithmetic
/// brings it: the ray parameter `t`, the point `p`, its two coordinates `a`
/// and `b` within the plane, the texture coordinates `u` and `v`, and the dot
/// product `dot` of the ray's direction with the plane's normal.
#[derive(Clone, Copy, Debug, PartialEq, Eq, Structural)]
pub struct Landing {
    pub t: Scalar,
    pub p: Point,
    pub a: Scalar,
    pub b: Scalar,
    pub u: Scalar,
    pub v: Scalar,
    pub dot: Scalar,
}

/// Whether the landing is a hit: its parameter lies strictly inside the
/// window, and both coordinates lie within the rectangle's edges, the edges
/// included. A landing that is not a number in any of the three is no hit,
/// so a ray that runs in the rectangle's plane misses it.
pub open spec fn lands(
    a0: Scalar,
    a1: Scalar,
    b0: Scalar,
    b1: Scalar,
    at: Landing,
    t_min: Scalar,
    t_max: Scalar,
) -> bool {
    t_min.spec_lt(at.t) && at.t.spec_lt(t_max) && a0.spec_le(at.a) && at.a.spec_le(a1) && b0.spec_le(at.b)
        && at.b.spec_le(b1)
}

/// The unit vector along an axis: along `z` for any axis but 0 and 1.
pub open spec fn unit(axis: int) -> Vector {
    let o = Scalar { bits: 0 };
    let l = Scalar { bits: ONE_BITS };
    if axis == 0 {
        Vector { x: l, y: o, z: o }
    } else if axis == 1 {
        Vector { x: o, y: l, z: o }
    } else {
        Vector { x: o, y: o, z: l }
    }
}

/// The record of a hit on a rectangle whose normal runs along `axis`.
pub open spec fn landed<M>(at: Landing, axis: int, material: M) -> HitRecord<M> {
    (HitRecord { t: at.t, u: at.u, v: at.v, p: at.p, normal: unit(axis), material, front_face: true }).facing(
        at.dot,
        unit(axis),
    )
}

/// The hit on a rectangle with the given edges, if the landing is one.
pub fn land<M>(
    a0: Scalar,
    a1: Scalar,
    b0: Scalar,
    b1: Scalar,
    axis: usize,
    material: M,
    at: Landing,
    t_min: Scalar,
    t_max: Scalar,
) -> (found: Option<HitRecord<M>>)
    ensures
        found == if lands(a0, a1, b0, b1, at, t_min, t_max) {
            Some(landed(at, axis as int, material))
        } else {
            None
        },
{
    if !(t_min.lt(at.t) && at.t.lt(t_max)) {
        return None;
    }
    if !(a0.le(at.a) && at.a.le(a1) && b0.le(at.b) && at.b.le(b1)) {
        return None;
    }
    let o = Scalar::zero();
    let l = Scalar::one();
    let outward_normal = if axis == 0 {
        Vector::new(l, o, o)
    } else if axis == 1 {
        Vector::new(o, l, o)
    } else {
        Vector::new(o, o, l)
    };
    let mut hit_rec = HitRecord { t: at.t, u: at.u, v: at.v, p: at.p, normal: outward_normal, material, front_face: true };
    hit_rec.set_face_normal(at.dot, outward_normal);
    Some(hit_rec)
}

/// A hit on a rectangle is made of numbers: its parameter and both of its
/// coordinates in the plane are numbers, and so are the ends of the window
/// and the edges that it was held against.
pub proof fn lemma_landing_is_numbers(
    a0: Scalar,
    a1: Scalar,
    b0: Scalar,
    b1: Scalar,
    at: Landing,
    t_min: Scalar,
    t_max: Scalar,
)
    requires
        lands(a0, a1, b0, b1, at, t_min, t_max),
    ensures
        !at.t.spec_is_nan(),
        !at.a.spec_is_nan(),
        !at.b.spec_is_nan(),
        t_min@ < at.t@ < t_max@,
        a0@ <= at.a@ <= a1@,
        b0@ <= at.b@ <= b1@,
{
}

} // verus!
