use vstd::prelude::*;
use crate::geometry::vector::{Point, Vector};
use crate::objects::aabb::Aabb;
use crate::objects::hit_record::HitRecord;

verus! {

/// An object moved by `offset`.
pub struct Translate<O> {
    pub object: O,
    pub offset: Vector,
}

/// The hit in the world that belongs to a hit in the object's own frame: the
/// same hit at the point `p`. Moving an object changes neither the parameter,
/// nor the normal, nor the side from which the ray comes.
pub open spec fn brought_back<M>(inner: HitRecord<M>, p: Point) -> HitRecord<M> {
    HitRecord { p, ..inner }
}

impl<O> Translate<O> {
    pub fn new(object: O, offset: Vector) -> (t: Self)
        ensures
            t.object == object,
            t.offset == offset,
    {
        Self { object, offset }
    }

    /// The hit of a ray on the moved object. `test` tests the object itself
    /// with the ray moved back by the offset; `forth` moves the point found
    /// forth by the given offset.
    pub fn hit<'a, M, F: FnOnce(&'a O) -> Option<HitRecord<M>>, B: FnOnce(Point, Vector) -> Point>(
        &'a self,
        test: F,
        forth: B,
    ) -> (found: Option<HitRecord<M>>)
        requires
            call_requires(test, (&self.object,)),
            forall|p: Point, o: Vector| call_requires(forth, (p, o)),
        ensures
            exists|inner: Option<HitRecord<M>>| #[trigger]
                call_ensures(test, (&self.object,), inner) && match inner {
                    None => found is None,
                    Some(rec) => exists|p: Point| #[trigger]
                        call_ensures(forth, (rec.p, self.offset), p) && found == Some(brought_back(rec, p)),
                },
    {
        let inner = test(&self.object);
        assert(call_ensures(test, (&self.object,), inner));
        match inner {
            Some(mut rec) => {
                let ghost before = rec;
                let p = forth(rec.p, self.offset);
                assert(call_ensures(forth, (before.p, self.offset), p));
                rec.p = p;
                assert(rec == brought_back(before, p));
                Some(rec)
            },
            None => None,
        }
    }

    /// The box around the moved object: the corners are those of the object's
    /// own box, each moved by the offset.
    pub fn bounding_box(&self, moved_min: Point, moved_max: Point) -> (b: Aabb)
        ensures
            b == (Aabb { min: moved_min, max: moved_max }),
    {
        Aabb::new(moved_min, moved_max)
    }
}

/// Moving an object and moving the hit back meet. Let a hit `found` on the
/// moved object belong to the hit `inner` on the object itself, and let
/// `minus`, which takes an offset off a point, undo what was added to the
/// point found. Then the hit, moved back, is the point found on the object
/// itself, and all else in the two records is the same.
pub proof fn lemma_moved_back_is_local<M>(
    inner: HitRecord<M>,
    p: Point,
    offset: Vector,
    minus: spec_fn(Point, Vector) -> Point,
    found: HitRecord<M>,
)
    requires
        found == brought_back(inner, p),
        minus(p, offset) == inner.p,
    ensures
        minus(found.p, offset) == inner.p,
        found == (HitRecord { p: found.p, ..inner }),
        found.t == inner.t,
        found.u == inner.u,
        found.v == inner.v,
        found.material == inner.material,
        found.normal == inner.normal,
        found.front_face == inner.front_face,
{
}

} // verus!
