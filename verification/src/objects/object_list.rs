use vstd::prelude::*;
use crate::geometry::scalar::Scalar;
use crate::geometry::vector::Point;
use crate::objects::aabb::Aabb;
use crate::objects::hit_record::{closest, HitRecord};

verus! {

/// Objects tested one after the other.
pub struct ObjectList<O> {
    pub objects: Vec<O>,
}

/// The later of two findings: the new one if there is one, else the old.
pub open spec fn latest<M>(before: Option<HitRecord<M>>, now: Option<HitRecord<M>>) -> Option<
    HitRecord<M>,
> {
    match now {
        Some(_) => now,
        None => before,
    }
}

/// Whether `found` can come out of testing the first `n` of `objects` in turn
/// with `test`, each between `t_min` and the nearest hit so far.
pub open spec fn scanned<'a, O: 'a, M, F: Fn(&'a O, Scalar, Scalar) -> Option<HitRecord<M>>>(
    objects: Seq<O>,
    n: int,
    t_min: Scalar,
    t_max: Scalar,
    test: F,
    found: Option<HitRecord<M>>,
) -> bool
    decreases n,
{
    if n <= 0 {
        found is None
    } else {
        exists|before: Option<HitRecord<M>>, now: Option<HitRecord<M>>| #[trigger]
            latest(before, now) == found && scanned(objects, n - 1, t_min, t_max, test, before)
                && call_ensures(test, (&objects[n - 1], t_min, closest(before, t_max)), now)
    }
}

/// The outcome of the scan when every test answers as `model` says.
pub open spec fn scan<O, M>(
    objects: Seq<O>,
    n: int,
    t_min: Scalar,
    t_max: Scalar,
    model: spec_fn(O, Scalar, Scalar) -> Option<HitRecord<M>>,
) -> Option<HitRecord<M>>
    decreases n,
{
    if n <= 0 {
        None
    } else {
        let before = scan(objects, n - 1, t_min, t_max, model);
        latest(before, model(objects[n - 1], t_min, closest(before, t_max)))
    }
}

/// Whether `test` can only answer what `model` says.
pub open spec fn answers_as<'a, O: 'a, M, F: Fn(&'a O, Scalar, Scalar) -> Option<HitRecord<M>>>(
    test: F,
    model: spec_fn(O, Scalar, Scalar) -> Option<HitRecord<M>>,
) -> bool {
    forall|o: &O, lo: Scalar, hi: Scalar, r: Option<HitRecord<M>>| #[trigger]
        call_ensures(test, (o, lo, hi), r) ==> r == model(*o, lo, hi)
}

impl<O> ObjectList<O> {
    pub fn new() -> (list: Self)
        ensures
            list.objects@ == Seq::<O>::empty(),
    {
        Self { objects: Vec::new() }
    }

    pub fn add(&mut self, object: O)
        ensures
            final(self).objects@ == old(self).objects@.push(object),
    {
        self.objects.push(object);
    }

    /// The nearest hit among the objects, found by testing each in turn: every
    /// test looks between `t_min` and the nearest hit so far, so a later
    /// object replaces an earlier one only by being nearer.
    pub fn hit<'a, M, F: Fn(&'a O, Scalar, Scalar) -> Option<HitRecord<M>>>(
        &'a self,
        t_min: Scalar,
        t_max: Scalar,
        test: &F,
    ) -> (found: Option<HitRecord<M>>)
        requires
            forall|o: &O, lo: Scalar, hi: Scalar| call_requires(*test, (o, lo, hi)),
        ensures
            scanned(self.objects@, self.objects@.len() as int, t_min, t_max, *test, found),
    {
        let mut rec: Option<HitRecord<M>> = None;
        let mut closest_so_far = t_max;
        let mut i: usize = 0;
        while i < self.objects.len()
            invariant
                i <= self.objects@.len(),
                forall|o: &O, lo: Scalar, hi: Scalar| call_requires(*test, (o, lo, hi)),
                scanned(self.objects@, i as int, t_min, t_max, *test, rec),
                closest_so_far == closest(rec, t_max),
            decreases self.objects@.len() - i,
        {
            let ghost before = rec;
            let now = test(&self.objects[i], t_min, closest_so_far);
            match now {
                Some(temp_rec) => {
                    closest_so_far = temp_rec.t;
                    rec = Some(temp_rec);
                },
                None => {},
            }
            assert(rec == latest(before, now));
            i = i + 1;
        }
        rec
    }

    /// The box around the origin and every object's box, the boxes being what
    /// `bounds` reports.
    pub fn bounding_box<'a, B: Fn(&'a O) -> Aabb>(&'a self, bounds: &B) -> (r: Aabb)
        requires
            forall|o: &O| call_requires(*bounds, (o,)),
        ensures
            gathered(self.objects@, self.objects@.len() as int, *bounds, r),
    {
        let origin = Point::from(Scalar::zero());
        let mut acc = Aabb::new(origin, origin);
        let mut i: usize = 0;
        while i < self.objects.len()
            invariant
                i <= self.objects@.len(),
                forall|o: &O| call_requires(*bounds, (o,)),
                gathered(self.objects@, i as int, *bounds, acc),
            decreases self.objects@.len() - i,
        {
            let ghost before = acc;
            let bounding_box = bounds(&self.objects[i]);
            acc = Aabb::surrounding_box(&acc, &bounding_box);
            assert(acc == Aabb::union(before, bounding_box));
            i = i + 1;
        }
        acc
    }
}

/// The box that holds nothing but the origin.
pub open spec fn origin_box() -> Aabb {
    let o = Point { x: Scalar { bits: 0 }, y: Scalar { bits: 0 }, z: Scalar { bits: 0 } };
    Aabb { min: o, max: o }
}

/// Whether `r` can come out of surrounding the origin and, in turn, the boxes
/// that `bounds` reports for the first `n` of `objects`.
pub open spec fn gathered<'a, O: 'a, B: Fn(&'a O) -> Aabb>(objects: Seq<O>, n: int, bounds: B, r: Aabb) -> bool
    decreases n,
{
    if n <= 0 {
        r == origin_box()
    } else {
        exists|before: Aabb, now: Aabb| #[trigger]
            Aabb::union(before, now) == r && gathered(objects, n - 1, bounds, before) && call_ensures(
                bounds,
                (&objects[n - 1],),
                now,
            )
    }
}

/// A scan whose tests answer as a model says ends as the model's scan does.
pub proof fn lemma_scanned_is_scan<'a, O: 'a, M, F: Fn(&'a O, Scalar, Scalar) -> Option<HitRecord<M>>>(
    objects: Seq<O>,
    n: int,
    t_min: Scalar,
    t_max: Scalar,
    test: F,
    model: spec_fn(O, Scalar, Scalar) -> Option<HitRecord<M>>,
    found: Option<HitRecord<M>>,
)
    requires
        0 <= n <= objects.len(),
        answers_as(test, model),
        scanned(objects, n, t_min, t_max, test, found),
    ensures
        found == scan(objects, n, t_min, t_max, model),
    decreases n,
{
    if n > 0 {
        let (before, now) = choose|before: Option<HitRecord<M>>, now: Option<HitRecord<M>>| #[trigger]
            latest(before, now) == found && scanned(objects, n - 1, t_min, t_max, test, before)
                && call_ensures(test, (&objects[n - 1], t_min, closest(before, t_max)), now);
        lemma_scanned_is_scan(objects, n - 1, t_min, t_max, test, model, before);
    }
}

} // verus!
