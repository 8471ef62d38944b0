use vstd::prelude::*;
use crate::geometry::scalar::{Scalar, INFINITY_BITS, SIGN_BIT};
use crate::geometry::vector::{Point, Vector};
use crate::objects::aabb::Aabb;
use crate::objects::hit_record::HitRecord;

verus! {

/// An object turned about the `y` axis.
pub struct RotateY<O> {
    pub object: O,
    pub sin_theta: Scalar,
    pub cos_theta: Scalar,
    pub bbox: Aabb,
}

/// A hit carried back from the object's own frame, as the arithmetic brings
/// it: the point and the normal turned back.
#[derive(Clone, Copy, Debug, PartialEq, Eq, Structural)]
pub struct Turned {
    pub p: Point,
    pub normal: Vector,
}

/// The box that holds nothing: it begins at infinity and ends at minus
/// infinity on every axis.
pub open spec fn nothing() -> Aabb {
    let hi = Scalar { bits: INFINITY_BITS };
    let lo = Scalar { bits: (INFINITY_BITS + SIGN_BIT) as u64 };
    Aabb { min: Point { x: hi, y: hi, z: hi }, max: Point { x: lo, y: lo, z: lo } }
}

/// `b` widened to hold the point `p`.
pub open spec fn widened(b: Aabb, p: Point) -> Aabb {
    Aabb {
        min: Point { x: b.min.x.spec_min(p.x), y: b.min.y.spec_min(p.y), z: b.min.z.spec_min(p.z) },
        max: Point { x: b.max.x.spec_max(p.x), y: b.max.y.spec_max(p.y), z: b.max.z.spec_max(p.z) },
    }
}

/// The box around the first `n` of the corners.
pub open spec fn around(corners: [Point; 8], n: int) -> Aabb
    decreases n,
{
    if n <= 0 {
        nothing()
    } else {
        widened(around(corners, n - 1), corners[n - 1])
    }
}

/// The hit in the world that belongs to a hit in the object's own frame: the
/// same hit, with its point and its normal turned back. Turning an object
/// changes neither the parameter nor the side from which the ray comes.
pub open spec fn turned_back<M>(inner: HitRecord<M>, turned: Turned) -> HitRecord<M> {
    HitRecord { p: turned.p, normal: turned.normal, ..inner }
}

impl<O> RotateY<O> {
    /// The object turned by the angle whose sine and cosine are given.
    /// `corners` are the eight corners of the object's own box, turned by
    /// that angle; the box of the turned object is the one around them.
    pub fn new(object: O, sin_theta: Scalar, cos_theta: Scalar, corners: &[Point; 8]) -> (r: Self)
        ensures
            r.object == object,
            r.sin_theta == sin_theta,
            r.cos_theta == cos_theta,
            r.bbox == around(*corners, 8),
    {
        let mut min = Point::from(Scalar::infinity());
        let mut max = Point::from(Scalar::neg_infinity());
        let mut i: usize = 0;
        while i < 8
            invariant
                i <= 8,
                (Aabb { min, max }) == around(*corners, i as int),
            decreases 8 - i,
        {
            let tester = corners[i];
            min = Point::new(min.x().min(tester.x()), min.y().min(tester.y()), min.z().min(tester.z()));
            max = Point::new(max.x().max(tester.x()), max.y().max(tester.y()), max.z().max(tester.z()));
            i = i + 1;
        }
        Self { object, sin_theta, cos_theta, bbox: Aabb::new(min, max) }
    }

    /// The hit of a ray on the turned object. `test` tests the object itself
    /// with the ray turned into its frame; `back` turns the point and the
    /// normal found back, given the sine and the cosine.
    pub fn hit<
        'a,
        M,
        F: FnOnce(&'a O) -> Option<HitRecord<M>>,
        B: FnOnce(Point, Vector, Scalar, Scalar) -> Turned,
    >(&'a self, test: F, back: B) -> (found: Option<HitRecord<M>>)
        requires
            call_requires(test, (&self.object,)),
            forall|p: Point, n: Vector, s: Scalar, c: Scalar| call_requires(back, (p, n, s, c)),
        ensures
            exists|inner: Option<HitRecord<M>>| #[trigger]
                call_ensures(test, (&self.object,), inner) && match inner {
                    None => found is None,
                    Some(rec) => exists|turned: Turned| #[trigger]
                        call_ensures(back, (rec.p, rec.normal, self.sin_theta, self.cos_theta), turned)
                            && found == Some(turned_back(rec, turned)),
                },
    {
        let inner = test(&self.object);
        assert(call_ensures(test, (&self.object,), inner));
        match inner {
            Some(mut rec) => {
                let ghost before = rec;
                let turned = back(rec.p, rec.normal, self.sin_theta, self.cos_theta);
                assert(call_ensures(back, (before.p, before.normal, self.sin_theta, self.cos_theta), turned));
                rec.p = turned.p;
                rec.normal = turned.normal;
                assert(rec == turned_back(before, turned));
                Some(rec)
            },
            None => None,
        }
    }

    pub fn bounding_box(&self) -> (b: Aabb)
        ensures
            b == self.bbox,
    {
        self.bbox
    }
}

/// The box around the corners holds every one of them, if they are numbers.
pub proof fn lemma_around_contains(corners: [Point; 8], n: int, k: int)
    requires
        0 <= k < n <= 8,
        forall|i: int| 0 <= i < 8 ==> (#[trigger] corners[i]).is_numbers(),
    ensures
        around(corners, n).contains(corners[k]),
        around(corners, n).min.is_numbers(),
        around(corners, n).max.is_numbers(),
    decreases n,
{
    let b = around(corners, n - 1);
    let p = corners[n - 1];
    assert(p.is_numbers());
    assert(corners[k].is_numbers());
    if n - 1 > 0 {
        lemma_around_contains(corners, n - 1, if k < n - 1 { k } else { 0 });
    } else {
        assert(b == nothing());
    }
    let w = widened(b, p);
    assert(w == around(corners, n));
    assert forall|axis: int| 0 <= axis < 3 implies (#[trigger] w.min.at(axis)).spec_le(corners[k].at(axis))
        && corners[k].at(axis).spec_le(w.max.at(axis)) by {
        if k < n - 1 {
            assert(b.min.at(axis).spec_le(corners[k].at(axis)));
        }
    }
}

} // verus!
