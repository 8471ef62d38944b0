use vstd::prelude::*;
use crate::objects::hit_record::HitRecord;

verus! {

/// An object seen from its other side.
pub struct FlipFace<O> {
    pub object: O,
}

/// A hit with its `front_face` flag inverted and all else kept.
pub open spec fn flipped<M>(found: Option<HitRecord<M>>) -> Option<HitRecord<M>> {
    match found {
        Some(rec) => Some(HitRecord { front_face: !rec.front_face, ..rec }),
        None => None,
    }
}

impl<O> FlipFace<O> {
    pub fn new(object: O) -> (f: Self)
        ensures
            f.object == object,
    {
        Self { object }
    }

    /// Tests the wrapped object with `test` and inverts the flag of what it
    /// reports.
    pub fn hit<'a, M, F: FnOnce(&'a O) -> Option<HitRecord<M>>>(&'a self, test: F) -> (found: Option<HitRecord<M>>)
        requires
            call_requires(test, (&self.object,)),
        ensures
            exists|inner: Option<HitRecord<M>>|
                call_ensures(test, (&self.object,), inner) && found == #[trigger] flipped(inner),
    {
        let inner = test(&self.object);
        let found = match inner {
            Some(mut rec) => {
                rec.front_face = !rec.front_face;
                Some(rec)
            },
            None => None,
        };
        assert(found == flipped(inner));
        found
    }
}

} // verus!
