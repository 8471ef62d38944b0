use vstd::prelude::*;
use crate::geometry::scalar::Scalar;
use crate::objects::aabb::{lemma_encloses_transitive, lemma_union_encloses, Aabb};
use crate::objects::bvh::{nearer, places, Bvh, BvhContents};
use crate::objects::hit_record::{closest, HitRecord};
use crate::objects::object_list::{latest, scan};

verus! {

/// Whether a finding lies strictly between the two ends.
pub open spec fn in_window<M>(found: Option<HitRecord<M>>, t_min: Scalar, t_max: Scalar) -> bool {
    match found {
        Some(h) => t_min.spec_lt(h.t) && h.t.spec_lt(t_max),
        None => false,
    }
}

/// Whether `enters` can only answer what `model` says.
pub open spec fn enters_as<B: Fn(&Aabb, Scalar, Scalar) -> bool>(
    enters: B,
    model: spec_fn(Aabb, Scalar, Scalar) -> bool,
) -> bool {
    forall|b: &Aabb, lo: Scalar, hi: Scalar, r: bool| #[trigger]
        call_ensures(enters, (b, lo, hi), r) ==> r == model(*b, lo, hi)
}

/// Whether `test` can only answer what `model` says.
pub open spec fn tests_as<M, F: Fn(usize, Scalar, Scalar) -> Option<HitRecord<M>>>(
    test: F,
    model: spec_fn(usize, Scalar, Scalar) -> Option<HitRecord<M>>,
) -> bool {
    forall|id: usize, lo: Scalar, hi: Scalar, r: Option<HitRecord<M>>| #[trigger]
        call_ensures(test, (id, lo, hi), r) ==> r == model(id, lo, hi)
}

/// Whether every object reports its first crossing behind `t_min`, given by
/// `first`, whenever that lies inside the window, and nothing otherwise.
pub open spec fn reports_first<M>(
    test: spec_fn(usize, Scalar, Scalar) -> Option<HitRecord<M>>,
    first: spec_fn(usize) -> Option<HitRecord<M>>,
    t_min: Scalar,
) -> bool {
    forall|id: usize, hi: Scalar| #[trigger]
        test(id, t_min, hi) == if in_window(first(id), t_min, hi) {
            first(id)
        } else {
            None
        }
}

/// Whether every hit that an object reports lies inside the window asked for.
pub open spec fn reports_inside<M>(
    test: spec_fn(usize, Scalar, Scalar) -> Option<HitRecord<M>>,
    t_min: Scalar,
) -> bool {
    forall|id: usize, hi: Scalar| (#[trigger] test(id, t_min, hi)) is Some ==> in_window(test(id, t_min, hi), t_min, hi)
}

/// Whether a ray that hits an object inside a window enters the object's box
/// in that window.
pub open spec fn boxes_hold<M>(
    enters: spec_fn(Aabb, Scalar, Scalar) -> bool,
    test: spec_fn(usize, Scalar, Scalar) -> Option<HitRecord<M>>,
    boxes: Seq<Aabb>,
    t_min: Scalar,
) -> bool {
    forall|id: usize, hi: Scalar|
        id < boxes.len() && (#[trigger] test(id, t_min, hi)) is Some ==> enters(boxes[id as int], t_min, hi)
}

/// Whether a ray that enters a box enters every box around it.
pub open spec fn enters_outer(enters: spec_fn(Aabb, Scalar, Scalar) -> bool, t_min: Scalar) -> bool {
    forall|inner: Aabb, outer: Aabb, hi: Scalar|
        #![trigger outer.encloses(inner), enters(inner, t_min, hi)]
        outer.encloses(inner) && enters(inner, t_min, hi) ==> enters(outer, t_min, hi)
}

/// Whether `found` is a nearest hit among the objects `ids`: none if no
/// object has its first crossing inside the window; else the first crossing of
/// one of them, inside the window, with none of the others' before it.
pub open spec fn is_nearest<M>(
    found: Option<HitRecord<M>>,
    ids: Seq<usize>,
    first: spec_fn(usize) -> Option<HitRecord<M>>,
    t_min: Scalar,
    t_max: Scalar,
) -> bool {
    match found {
        None => forall|k: int| 0 <= k < ids.len() ==> !in_window(first(#[trigger] ids[k]), t_min, t_max),
        Some(h) => in_window(found, t_min, t_max) && (exists|k: int|
            0 <= k < ids.len() && first(#[trigger] ids[k]) == found) && forall|k: int|
            0 <= k < ids.len() && in_window(first(#[trigger] ids[k]), t_min, t_max) ==> h.t@
                <= first(ids[k])->Some_0.t@,
    }
}

/// A search whose tests answer as models say ends as the models' search does.
pub proof fn lemma_searched_is_search<
    M,
    B: Fn(&Aabb, Scalar, Scalar) -> bool,
    F: Fn(usize, Scalar, Scalar) -> Option<HitRecord<M>>,
>(
    tree: Bvh,
    t_min: Scalar,
    t_max: Scalar,
    enters: B,
    test: F,
    enters_model: spec_fn(Aabb, Scalar, Scalar) -> bool,
    test_model: spec_fn(usize, Scalar, Scalar) -> Option<HitRecord<M>>,
    found: Option<HitRecord<M>>,
)
    requires
        enters_as(enters, enters_model),
        tests_as(test, test_model),
        tree.searched(t_min, t_max, enters, test, found),
    ensures
        found == tree.search(t_min, t_max, enters_model, test_model),
    decreases tree,
{
    let inside = choose|inside: bool| #[trigger]
        call_ensures(enters, (&tree.bounds, t_min, t_max), inside) && if !inside {
            found is None
        } else {
            match tree.contents {
                BvhContents::Leaf(id) => call_ensures(test, (id, t_min, t_max), found),
                BvhContents::Node { left, right } => exists|
                    hit_left: Option<HitRecord<M>>,
                    hit_right: Option<HitRecord<M>>,
                | #[trigger]
                    nearer(hit_left, hit_right) == found && left.searched(
                        t_min,
                        t_max,
                        enters,
                        test,
                        hit_left,
                    ) && right.searched(t_min, closest(hit_left, t_max), enters, test, hit_right),
            }
        };
    if inside {
        match tree.contents {
            BvhContents::Leaf(id) => {},
            BvhContents::Node { left, right } => {
                let (hit_left, hit_right) = choose|
                    hit_left: Option<HitRecord<M>>,
                    hit_right: Option<HitRecord<M>>,
                | #[trigger]
                    nearer(hit_left, hit_right) == found && left.searched(
                        t_min,
                        t_max,
                        enters,
                        test,
                        hit_left,
                    ) && right.searched(t_min, closest(hit_left, t_max), enters, test, hit_right);
                lemma_searched_is_search(
                    *left,
                    t_min,
                    t_max,
                    enters,
                    test,
                    enters_model,
                    test_model,
                    hit_left,
                );
                lemma_searched_is_search(
                    *right,
                    t_min,
                    closest(hit_left, t_max),
                    enters,
                    test,
                    enters_model,
                    test_model,
                    hit_right,
                );
            },
        }
    }
}

/// The box of a node holds the box of every object below it.
pub proof fn lemma_bounds_hold_leaves(tree: Bvh, boxes: Seq<Aabb>)
    requires
        tree.fits(boxes),
        forall|i: int| 0 <= i < boxes.len() ==> (#[trigger] boxes[i]).valid(),
    ensures
        tree.bounds.min.is_numbers(),
        tree.bounds.max.is_numbers(),
        forall|k: int|
            0 <= k < tree.leaves().len() ==> (#[trigger] tree.leaves()[k]) < boxes.len()
                && tree.bounds.encloses(boxes[tree.leaves()[k] as int]),
    decreases tree,
{
    match tree.contents {
        BvhContents::Leaf(id) => {
            let b = boxes[id as int];
            assert(b.valid());
            assert(b.min.at(0).spec_le(b.max.at(0)));
            assert(b.min.at(1).spec_le(b.max.at(1)));
            assert(b.min.at(2).spec_le(b.max.at(2)));
        },
        BvhContents::Node { left, right } => {
            lemma_bounds_hold_leaves(*left, boxes);
            lemma_bounds_hold_leaves(*right, boxes);
            lemma_union_encloses(left.bounds, right.bounds);
            assert forall|k: int| 0 <= k < tree.leaves().len() implies (#[trigger] tree.leaves()[k])
                < boxes.len() && tree.bounds.encloses(boxes[tree.leaves()[k] as int]) by {
                if k < left.leaves().len() {
                    assert(tree.leaves()[k] == left.leaves()[k]);
                    lemma_encloses_transitive(tree.bounds, left.bounds, boxes[tree.leaves()[k] as int]);
                } else {
                    assert(tree.leaves()[k] == right.leaves()[k - left.leaves().len()]);
                    lemma_encloses_transitive(tree.bounds, right.bounds, boxes[tree.leaves()[k] as int]);
                }
            }
        },
    }
}

/// A scan looks at the objects it is told to scan and no others.
proof fn lemma_scan_of_prefix<M>(
    a: Seq<usize>,
    b: Seq<usize>,
    n: int,
    t_min: Scalar,
    t_max: Scalar,
    test: spec_fn(usize, Scalar, Scalar) -> Option<HitRecord<M>>,
)
    requires
        0 <= n <= a.len(),
        n <= b.len(),
        forall|k: int| 0 <= k < n ==> a[k] == b[k],
    ensures
        scan(a, n, t_min, t_max, test) == scan(b, n, t_min, t_max, test),
    decreases n,
{
    if n > 0 {
        lemma_scan_of_prefix(a, b, n - 1, t_min, t_max, test);
    }
}

/// A scan in which no object reports a hit finds nothing.
proof fn lemma_scan_of_misses<M>(
    ids: Seq<usize>,
    n: int,
    t_min: Scalar,
    t_max: Scalar,
    test: spec_fn(usize, Scalar, Scalar) -> Option<HitRecord<M>>,
)
    requires
        0 <= n <= ids.len(),
        forall|k: int| 0 <= k < n ==> test(#[trigger] ids[k], t_min, t_max) is None,
    ensures
        scan(ids, n, t_min, t_max, test) is None,
    decreases n,
{
    if n > 0 {
        lemma_scan_of_misses(ids, n - 1, t_min, t_max, test);
    }
}

/// What a scan finds lies inside the window, if what the objects report does.
proof fn lemma_scan_inside<M>(
    ids: Seq<usize>,
    n: int,
    t_min: Scalar,
    t_max: Scalar,
    test: spec_fn(usize, Scalar, Scalar) -> Option<HitRecord<M>>,
)
    requires
        0 <= n <= ids.len(),
        reports_inside(test, t_min),
    ensures
        scan(ids, n, t_min, t_max, test) is Some ==> in_window(scan(ids, n, t_min, t_max, test), t_min, t_max),
    decreases n,
{
    if n > 0 {
        lemma_scan_inside(ids, n - 1, t_min, t_max, test);
        let before = scan(ids, n - 1, t_min, t_max, test);
        let now = test(ids[n - 1], t_min, closest(before, t_max));
        if now is Some {
            assert(in_window(now, t_min, closest(before, t_max)));
        }
    }
}

/// Scanning one list and then another is scanning the first, and then the
/// second up to what the first has found.
proof fn lemma_scan_of_two<M>(
    a: Seq<usize>,
    b: Seq<usize>,
    t_min: Scalar,
    t_max: Scalar,
    test: spec_fn(usize, Scalar, Scalar) -> Option<HitRecord<M>>,
)
    ensures
        scan(a + b, (a + b).len() as int, t_min, t_max, test) == latest(
            scan(a, a.len() as int, t_min, t_max, test),
            scan(
                b,
                b.len() as int,
                t_min,
                closest(scan(a, a.len() as int, t_min, t_max, test), t_max),
                test,
            ),
        ),
    decreases b.len(),
{
    let found_a = scan(a, a.len() as int, t_min, t_max, test);
    if b.len() == 0 {
        assert(a + b =~= a);
    } else {
        let init = b.drop_last();
        lemma_scan_of_two(a, init, t_min, t_max, test);
        lemma_scan_of_prefix(a + b, a + init, (a + init).len() as int, t_min, t_max, test);
        lemma_scan_of_prefix(b, init, init.len() as int, t_min, closest(found_a, t_max), test);
        assert((a + b)[(a + b).len() - 1] == b[b.len() - 1]);
    }
}

/// The search of a hierarchy finds exactly what a scan of its objects, taken
/// from left to right, finds, provided that the boxes are valid, that objects
/// report hits inside the window only, that a ray which hits an object enters
/// its box, and that a ray which enters a box enters every box around it.
pub proof fn lemma_search_is_scan_of_leaves<M>(
    tree: Bvh,
    boxes: Seq<Aabb>,
    t_min: Scalar,
    t_max: Scalar,
    enters: spec_fn(Aabb, Scalar, Scalar) -> bool,
    test: spec_fn(usize, Scalar, Scalar) -> Option<HitRecord<M>>,
)
    requires
        tree.fits(boxes),
        forall|i: int| 0 <= i < boxes.len() ==> (#[trigger] boxes[i]).valid(),
        reports_inside(test, t_min),
        boxes_hold(enters, test, boxes, t_min),
        enters_outer(enters, t_min),
    ensures
        tree.search(t_min, t_max, enters, test) == scan(
            tree.leaves(),
            tree.leaves().len() as int,
            t_min,
            t_max,
            test,
        ),
    decreases tree,
{
    let ids = tree.leaves();
    if !enters(tree.bounds, t_min, t_max) {
        lemma_bounds_hold_leaves(tree, boxes);
        assert forall|k: int| 0 <= k < ids.len() implies test(#[trigger] ids[k], t_min, t_max) is None by {
            if test(ids[k], t_min, t_max) is Some {
                assert(enters(boxes[ids[k] as int], t_min, t_max));
                assert(tree.bounds.encloses(boxes[ids[k] as int]));
            }
        }
        lemma_scan_of_misses(ids, ids.len() as int, t_min, t_max, test);
    } else {
        match tree.contents {
            BvhContents::Leaf(id) => {
                assert(scan(ids, 0, t_min, t_max, test) is None);
            },
            BvhContents::Node { left, right } => {
                let hit_left = left.search(t_min, t_max, enters, test);
                let t_end = closest(hit_left, t_max);
                let hit_right = right.search(t_min, t_end, enters, test);
                lemma_search_is_scan_of_leaves(*left, boxes, t_min, t_max, enters, test);
                lemma_search_is_scan_of_leaves(*right, boxes, t_min, t_end, enters, test);
                lemma_scan_of_two(left.leaves(), right.leaves(), t_min, t_max, test);
                lemma_scan_inside(right.leaves(), right.leaves().len() as int, t_min, t_end, test);
            },
        }
    }
}

/// A scan finds a nearest hit among the objects it scans, if each of them
/// reports its first crossing.
pub proof fn lemma_scan_finds_nearest<M>(
    ids: Seq<usize>,
    n: int,
    t_min: Scalar,
    t_max: Scalar,
    test: spec_fn(usize, Scalar, Scalar) -> Option<HitRecord<M>>,
    first: spec_fn(usize) -> Option<HitRecord<M>>,
)
    requires
        0 <= n <= ids.len(),
        reports_first(test, first, t_min),
    ensures
        is_nearest(scan(ids, n, t_min, t_max, test), ids.subrange(0, n), first, t_min, t_max),
    decreases n,
{
    let s = ids.subrange(0, n);
    if n > 0 {
        let p = ids.subrange(0, n - 1);
        lemma_scan_finds_nearest(ids, n - 1, t_min, t_max, test, first);
        let before = scan(ids, n - 1, t_min, t_max, test);
        let t_end = closest(before, t_max);
        let now = test(ids[n - 1], t_min, t_end);
        let found = latest(before, now);
        assert(found == scan(ids, n, t_min, t_max, test));
        assert(s[n - 1] == ids[n - 1]);
        assert forall|k: int| 0 <= k < n - 1 implies s[k] == p[k] by {}
        match found {
            None => {
                assert forall|k: int| 0 <= k < s.len() implies !in_window(first(#[trigger] s[k]), t_min, t_max) by {
                    if k < n - 1 {
                        assert(s[k] == p[k]);
                    }
                }
            },
            Some(h) => {
                if now is Some {
                    assert(first(s[n - 1]) == found);
                    assert forall|k: int|
                        0 <= k < s.len() && in_window(first(#[trigger] s[k]), t_min, t_max) implies h.t@
                        <= first(s[k])->Some_0.t@ by {
                        if k < n - 1 {
                            assert(s[k] == p[k]);
                        }
                    }
                } else {
                    let k0 = choose|k: int| 0 <= k < p.len() && first(#[trigger] p[k]) == before;
                    assert(s[k0] == p[k0]);
                    assert forall|k: int|
                        0 <= k < s.len() && in_window(first(#[trigger] s[k]), t_min, t_max) implies h.t@
                        <= first(s[k])->Some_0.t@ by {
                        if k < n - 1 {
                            assert(s[k] == p[k]);
                        }
                    }
                }
            },
        }
    }
}

/// Two nearest hits among the same objects are equally far: both lists find
/// nothing, or both find a hit at the same parameter.
pub proof fn lemma_nearest_agree<M>(
    found_a: Option<HitRecord<M>>,
    a: Seq<usize>,
    found_b: Option<HitRecord<M>>,
    b: Seq<usize>,
    first: spec_fn(usize) -> Option<HitRecord<M>>,
    t_min: Scalar,
    t_max: Scalar,
)
    requires
        is_nearest(found_a, a, first, t_min, t_max),
        is_nearest(found_b, b, first, t_min, t_max),
        forall|v: usize| a.contains(v) <==> b.contains(v),
    ensures
        found_a is None <==> found_b is None,
        found_a is Some ==> found_a->Some_0.t@ == found_b->Some_0.t@,
{
    if found_a is Some {
        let ka = choose|k: int| 0 <= k < a.len() && first(#[trigger] a[k]) == found_a;
        assert(a.contains(a[ka]));
        assert(b.contains(a[ka]));
        let kb = choose|k: int| 0 <= k < b.len() && b[k] == a[ka];
        assert(in_window(first(b[kb]), t_min, t_max));
    }
    if found_b is Some {
        let kb = choose|k: int| 0 <= k < b.len() && first(#[trigger] b[k]) == found_b;
        assert(b.contains(b[kb]));
        assert(a.contains(b[kb]));
        let ka = choose|k: int| 0 <= k < a.len() && a[k] == b[kb];
        assert(in_window(first(a[ka]), t_min, t_max));
    }
}

/// The hierarchy and the plain list agree. Let a hierarchy hold each of the
/// objects `0, .., n - 1` once, under their valid boxes; let every object
/// report its first crossing behind `t_min` whenever that lies in the window
/// asked for; let a ray that hits an object enter its box, and a ray that
/// enters a box enter every box around it. Then the search of the hierarchy
/// and the scan of the objects one by one find nothing alike, or find hits at
/// the same parameter.
pub proof fn lemma_bvh_agrees_with_list<M>(
    tree: Bvh,
    boxes: Seq<Aabb>,
    t_min: Scalar,
    t_max: Scalar,
    enters: spec_fn(Aabb, Scalar, Scalar) -> bool,
    test: spec_fn(usize, Scalar, Scalar) -> Option<HitRecord<M>>,
    first: spec_fn(usize) -> Option<HitRecord<M>>,
)
    requires
        tree.fits(boxes),
        tree.leaves().to_multiset() == places(boxes.len()).to_multiset(),
        forall|i: int| 0 <= i < boxes.len() ==> (#[trigger] boxes[i]).valid(),
        reports_first(test, first, t_min),
        boxes_hold(enters, test, boxes, t_min),
        enters_outer(enters, t_min),
    ensures
        ({
            let by_tree = tree.search(t_min, t_max, enters, test);
            let by_list = scan(places(boxes.len()), boxes.len() as int, t_min, t_max, test);
            &&& by_tree is None <==> by_list is None
            &&& by_tree is Some ==> by_tree->Some_0.t@ == by_list->Some_0.t@
            &&& is_nearest(by_tree, places(boxes.len()), first, t_min, t_max)
        }),
{
    broadcast use vstd::seq_lib::group_to_multiset_ensures;

    let leaves = tree.leaves();
    let all = places(boxes.len());
    assert(reports_inside(test, t_min)) by {
        assert forall|id: usize, hi: Scalar| (#[trigger] test(id, t_min, hi)) is Some implies in_window(
            test(id, t_min, hi),
            t_min,
            hi,
        ) by {}
    }
    lemma_search_is_scan_of_leaves(tree, boxes, t_min, t_max, enters, test);
    lemma_scan_finds_nearest(leaves, leaves.len() as int, t_min, t_max, test, first);
    lemma_scan_finds_nearest(all, all.len() as int, t_min, t_max, test, first);
    assert(leaves.subrange(0, leaves.len() as int) =~= leaves);
    assert(all.subrange(0, all.len() as int) =~= all);
    assert forall|v: usize| leaves.contains(v) <==> all.contains(v) by {
        assert(leaves.to_multiset().count(v) == all.to_multiset().count(v));
    }
    let by_tree = tree.search(t_min, t_max, enters, test);
    let by_list = scan(all, all.len() as int, t_min, t_max, test);
    lemma_nearest_agree(by_tree, leaves, by_list, all, first, t_min, t_max);
    if by_tree is Some {
        let k = choose|k: int| 0 <= k < leaves.len() && first(#[trigger] leaves[k]) == by_tree;
        assert(leaves.contains(leaves[k]));
        let j = choose|j: int| 0 <= j < all.len() && all[j] == leaves[k];
        assert(first(all[j]) == by_tree);
        assert forall|m: int|
            0 <= m < all.len() && in_window(first(#[trigger] all[m]), t_min, t_max) implies by_tree->Some_0.t@
            <= first(all[m])->Some_0.t@ by {
            assert(all.contains(all[m]));
            let q = choose|q: int| 0 <= q < leaves.len() && leaves[q] == all[m];
            assert(in_window(first(leaves[q]), t_min, t_max));
        }
    } else {
        assert forall|m: int| 0 <= m < all.len() implies !in_window(first(#[trigger] all[m]), t_min, t_max) by {
            assert(all.contains(all[m]));
            let q = choose|q: int| 0 <= q < leaves.len() && leaves[q] == all[m];
            assert(!in_window(first(leaves[q]), t_min, t_max));
        }
    }
}

} // verus!
