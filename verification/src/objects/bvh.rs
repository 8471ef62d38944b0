use rand::rngs::ThreadRng;
use vstd::prelude::*;
use crate::geometry::scalar::Scalar;
use crate::objects::aabb::Aabb;
use crate::objects::hit_record::{closest, HitRecord};
use crate::objects::sorting::{lemma_ordered_within, ordered, sort_by_axis};
use crate::utils::gen_range;

verus! {

/// A bounding volume hierarchy over objects that the caller keeps: a leaf
/// names one object by its place in the caller's list, and every node carries
/// a box around all that lies below it.
pub struct Bvh {
    pub contents: BvhContents,
    pub bounds: Aabb,
}

pub enum BvhContents {
    Node { left: Box<Bvh>, right: Box<Bvh> },
    Leaf(usize),
}

/// The places `0, 1, .., n - 1`.
pub open spec fn places(n: nat) -> Seq<usize> {
    Seq::new(n, |i: int| i as usize)
}

/// Of two findings the one to keep: the only one, or of two the left unless
/// the right is not farther.
pub open spec fn nearer<M>(hit_left: Option<HitRecord<M>>, hit_right: Option<HitRecord<M>>) -> Option<
    HitRecord<M>,
> {
    match (hit_left, hit_right) {
        (h, None) => h,
        (None, h) => h,
        (Some(hl), Some(hr)) => if hl.t.spec_lt(hr.t) {
            hit_left
        } else {
            hit_right
        },
    }
}

impl Bvh {
    /// The objects below this node, from left to right.
    pub open spec fn leaves(self) -> Seq<usize>
        decreases self,
    {
        match self.contents {
            BvhContents::Leaf(id) => seq![id],
            BvhContents::Node { left, right } => left.leaves() + right.leaves(),
        }
    }

    /// Whether the tree's boxes are those of `boxes`: a leaf has the box of
    /// its object, a node the box that surrounds those of its two children.
    pub open spec fn fits(self, boxes: Seq<Aabb>) -> bool
        decreases self,
    {
        match self.contents {
            BvhContents::Leaf(id) => id < boxes.len() && self.bounds == boxes[id as int],
            BvhContents::Node { left, right } => left.fits(boxes) && right.fits(boxes) && self.bounds
                == Aabb::union(left.bounds, right.bounds),
        }
    }

    /// Whether this is a tree that the build makes of the objects `ids`: a
    /// leaf of a single object; of more, a node for which the objects were
    /// ordered along one of the three axes and split in the middle, the first
    /// half (the smaller, if they differ) grown into the left child and the
    /// rest into the right.
    pub open spec fn grown_from(self, ids: Seq<usize>, boxes: Seq<Aabb>) -> bool
        decreases self,
    {
        match self.contents {
            BvhContents::Leaf(id) => ids == seq![id] && self.bounds == boxes[id as int],
            BvhContents::Node { left, right } => ids.len() >= 2 && self.bounds == Aabb::union(
                left.bounds,
                right.bounds,
            ) && exists|axis: int|
                0 <= axis < 3 && left.grown_from(
                    (#[trigger] ordered(ids, boxes, axis)).subrange(0, ids.len() as int / 2),
                    boxes,
                ) && right.grown_from(
                    ordered(ids, boxes, axis).subrange(ids.len() as int / 2, ids.len() as int),
                    boxes,
                ),
        }
    }

    /// Whether `found` can come out of the search below this node, between
    /// `t_min` and `t_max`, when `enters` tests the boxes and `test` the
    /// objects. A node whose box the ray does not enter yields nothing. Else a
    /// leaf yields what the test of its object yields; an inner node searches
    /// its left child, then its right child up to the hit on the left if there
    /// was one, and keeps the nearer finding.
    pub open spec fn searched<
        M,
        B: Fn(&Aabb, Scalar, Scalar) -> bool,
        F: Fn(usize, Scalar, Scalar) -> Option<HitRecord<M>>,
    >(self, t_min: Scalar, t_max: Scalar, enters: B, test: F, found: Option<HitRecord<M>>) -> bool
        decreases self,
    {
        exists|inside: bool| #[trigger]
            call_ensures(enters, (&self.bounds, t_min, t_max), inside) && if !inside {
                found is None
            } else {
                match self.contents {
                    BvhContents::Leaf(id) => call_ensures(test, (id, t_min, t_max), found),
                    BvhContents::Node { left, right } => exists|
                        hit_left: Option<HitRecord<M>>,
                        hit_right: Option<HitRecord<M>>,
                    | #[trigger]
                        nearer(hit_left, hit_right) == found && left.searched(
                            t_min,
                            t_max,
                            enters,
                            test,
                            hit_left,
                        ) && right.searched(t_min, closest(hit_left, t_max), enters, test, hit_right),
                }
            }
    }

    /// The outcome of the search when the tests answer as the models say.
    pub open spec fn search<M>(
        self,
        t_min: Scalar,
        t_max: Scalar,
        enters: spec_fn(Aabb, Scalar, Scalar) -> bool,
        test: spec_fn(usize, Scalar, Scalar) -> Option<HitRecord<M>>,
    ) -> Option<HitRecord<M>>
        decreases self,
    {
        if !enters(self.bounds, t_min, t_max) {
            None
        } else {
            match self.contents {
                BvhContents::Leaf(id) => test(id, t_min, t_max),
                BvhContents::Node { left, right } => {
                    let hit_left = left.search(t_min, t_max, enters, test);
                    let hit_right = right.search(t_min, closest(hit_left, t_max), enters, test);
                    nearer(hit_left, hit_right)
                },
            }
        }
    }

    /// Builds the hierarchy over the objects whose boxes are `boxes`, object
    /// `i` being the one with box `boxes[i]`. At each node the axis along
    /// which the objects are ordered is drawn from `rng`.
    pub fn new(boxes: &Vec<Aabb>, rng: &mut ThreadRng) -> (tree: Bvh)
        requires
            boxes@.len() > 0,
        ensures
            tree.grown_from(places(boxes@.len()), boxes@),
            tree.fits(boxes@),
            tree.leaves().to_multiset() == places(boxes@.len()).to_multiset(),
    {
        let mut ids: Vec<usize> = Vec::new();
        let mut i: usize = 0;
        while i < boxes.len()
            invariant
                i <= boxes@.len(),
                ids@ == places(i as nat),
            decreases boxes@.len() - i,
        {
            ids.push(i);
            assert(ids@ =~= places((i + 1) as nat));
            i = i + 1;
        }
        let tree = Bvh::build(ids, boxes, rng);
        proof {
            lemma_grown_fits(tree, places(boxes@.len()), boxes@);
        }
        tree
    }

    /// Builds the hierarchy over the objects `ids` of those whose boxes are
    /// `boxes`.
    pub fn build(ids: Vec<usize>, boxes: &Vec<Aabb>, rng: &mut ThreadRng) -> (tree: Bvh)
        requires
            ids@.len() > 0,
            forall|k: int| 0 <= k < ids@.len() ==> (#[trigger] ids@[k]) < boxes@.len(),
        ensures
            tree.grown_from(ids@, boxes@),
        decreases ids@.len(),
    {
        let axis = gen_range(rng, 0, 3);
        let object_span = ids.len();
        if object_span == 1 {
            let id = ids[0];
            assert(ids@ =~= seq![id]);
            Bvh { bounds: boxes[id], contents: BvhContents::Leaf(id) }
        } else {
            let mut objects = sort_by_axis(&ids, boxes, axis);
            proof {
                lemma_ordered_within(ids@, boxes@, axis as int);
            }
            let rest = objects.split_off(object_span / 2);
            let right = Bvh::build(rest, boxes, rng);
            let left = Bvh::build(objects, boxes, rng);
            let bounds = Aabb::surrounding_box(&left.bounds, &right.bounds);
            let tree = Bvh {
                bounds,
                contents: BvhContents::Node { left: Box::new(left), right: Box::new(right) },
            };
            assert(left.grown_from(
                ordered(ids@, boxes@, axis as int).subrange(0, ids@.len() as int / 2),
                boxes@,
            ));
            tree
        }
    }

    /// The box around everything in the hierarchy.
    pub fn bounding_box(&self) -> (b: Aabb)
        ensures
            b == self.bounds,
    {
        self.bounds
    }

    /// The nearest hit of a ray among the objects of the hierarchy, between
    /// `t_min` and `t_max`. `enters` is the ray's slab test on a box, `test`
    /// its hit test on an object.
    pub fn hit<
        M,
        B: Fn(&Aabb, Scalar, Scalar) -> bool,
        F: Fn(usize, Scalar, Scalar) -> Option<HitRecord<M>>,
    >(&self, t_min: Scalar, t_max: Scalar, enters: &B, test: &F) -> (found: Option<HitRecord<M>>)
        requires
            forall|b: &Aabb, lo: Scalar, hi: Scalar| call_requires(*enters, (b, lo, hi)),
            forall|id: usize, lo: Scalar, hi: Scalar| call_requires(*test, (id, lo, hi)),
        ensures
            self.searched(t_min, t_max, *enters, *test, found),
        decreases *self,
    {
        let inside = enters(&self.bounds, t_min, t_max);
        if inside {
            match &self.contents {
                BvhContents::Node { left, right } => {
                    let hit_left = left.hit(t_min, t_max, enters, test);
                    let t_end = match &hit_left {
                        Some(hl) => hl.t,
                        None => t_max,
                    };
                    let hit_right = right.hit(t_min, t_end, enters, test);
                    let ghost (gl, gr) = (hit_left, hit_right);
                    let found = match (hit_left, hit_right) {
                        (h, None) => h,
                        (None, h) => h,
                        (Some(hl), Some(hr)) => {
                            if hl.t.lt(hr.t) {
                                Some(hl)
                            } else {
                                Some(hr)
                            }
                        },
                    };
                    assert(found == nearer(gl, gr));
                    assert(call_ensures(*enters, (&self.bounds, t_min, t_max), inside));
                    found
                },
                BvhContents::Leaf(id) => {
                    let found = test(*id, t_min, t_max);
                    assert(call_ensures(*enters, (&self.bounds, t_min, t_max), inside));
                    found
                },
            }
        } else {
            assert(call_ensures(*enters, (&self.bounds, t_min, t_max), inside));
            None
        }
    }
}

/// A tree grown from objects of `boxes` has their boxes, and its leaves are
/// those objects, each as often as given.
pub proof fn lemma_grown_fits(tree: Bvh, ids: Seq<usize>, boxes: Seq<Aabb>)
    requires
        tree.grown_from(ids, boxes),
        forall|k: int| 0 <= k < ids.len() ==> (#[trigger] ids[k]) < boxes.len(),
    ensures
        tree.fits(boxes),
        tree.leaves().to_multiset() == ids.to_multiset(),
        tree.leaves().len() == ids.len(),
    decreases tree,
{
    broadcast use vstd::seq_lib::group_to_multiset_ensures;

    match tree.contents {
        BvhContents::Leaf(id) => {
            assert(ids[0] == id);
        },
        BvhContents::Node { left, right } => {
            let axis = choose|axis: int|
                0 <= axis < 3 && left.grown_from(
                    (#[trigger] ordered(ids, boxes, axis)).subrange(0, ids.len() as int / 2),
                    boxes,
                ) && right.grown_from(
                    ordered(ids, boxes, axis).subrange(ids.len() as int / 2, ids.len() as int),
                    boxes,
                );
            let s = ordered(ids, boxes, axis);
            let mid = ids.len() as int / 2;
            lemma_ordered_within(ids, boxes, axis);
            crate::objects::sorting::lemma_ordered_is_stable_sort(ids, boxes, axis);
            lemma_grown_fits(*left, s.subrange(0, mid), boxes);
            lemma_grown_fits(*right, s.subrange(mid, ids.len() as int), boxes);
            assert(s =~= s.subrange(0, mid) + s.subrange(mid, ids.len() as int));
            vstd::seq_lib::lemma_multiset_commutative(s.subrange(0, mid), s.subrange(mid, ids.len() as int));
            vstd::seq_lib::lemma_multiset_commutative(left.leaves(), right.leaves());
        },
    }
}

} // verus!
