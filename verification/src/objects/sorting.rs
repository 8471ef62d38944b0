use vstd::prelude::*;
use crate::objects::aabb::Aabb;

verus! {

/// What an object is ordered by along an axis: the rank of its box's least
/// corner there.
pub open spec fn key_of(boxes: Seq<Aabb>, axis: int, id: usize) -> int {
    boxes[id as int].min.at(axis)@
}

/// `sorted` with `id` put in behind every entry whose key is not above its own.
pub open spec fn placed(sorted: Seq<usize>, id: usize, boxes: Seq<Aabb>, axis: int) -> Seq<usize>
    decreases sorted.len(),
{
    if sorted.len() == 0 {
        seq![id]
    } else if key_of(boxes, axis, sorted.last()) <= key_of(boxes, axis, id) {
        sorted.push(id)
    } else {
        placed(sorted.drop_last(), id, boxes, axis).push(sorted.last())
    }
}

/// The objects `ids` in the order of their keys along `axis`, those with equal
/// keys in the order in which `ids` has them.
pub open spec fn ordered(ids: Seq<usize>, boxes: Seq<Aabb>, axis: int) -> Seq<usize>
    decreases ids.len(),
{
    if ids.len() == 0 {
        Seq::empty()
    } else {
        placed(ordered(ids.drop_last(), boxes, axis), ids.last(), boxes, axis)
    }
}

/// Whether the keys along `axis` never fall from one entry of `s` to the next.
pub open spec fn ascending(s: Seq<usize>, boxes: Seq<Aabb>, axis: int) -> bool {
    forall|i: int, j: int|
        0 <= i < j < s.len() ==> key_of(boxes, axis, #[trigger] s[i]) <= key_of(boxes, axis, #[trigger] s[j])
}

/// Whether entries of `s` with equal keys stand as they stand in `ids`.
pub open spec fn keeps_ties(s: Seq<usize>, ids: Seq<usize>, boxes: Seq<Aabb>, axis: int) -> bool {
    forall|i: int, j: int|
        0 <= i < j < s.len() && key_of(boxes, axis, #[trigger] s[i]) == key_of(boxes, axis, #[trigger] s[j])
            ==> ids.index_of(s[i]) < ids.index_of(s[j])
}

/// Where `id` comes to stand when it is placed: behind the entries up to that
/// place, before those from it on, which keep their order.
proof fn lemma_placed_shape(sorted: Seq<usize>, id: usize, boxes: Seq<Aabb>, axis: int) -> (at: int)
    ensures
        0 <= at <= sorted.len(),
        placed(sorted, id, boxes, axis) == sorted.insert(at, id),
        forall|j: int| at <= j < sorted.len() ==> key_of(boxes, axis, #[trigger] sorted[j]) > key_of(boxes, axis, id),
        at > 0 ==> key_of(boxes, axis, sorted[at - 1]) <= key_of(boxes, axis, id),
    decreases sorted.len(),
{
    if sorted.len() == 0 {
        assert(sorted.insert(0, id) =~= seq![id]);
        0
    } else if key_of(boxes, axis, sorted.last()) <= key_of(boxes, axis, id) {
        assert(sorted.insert(sorted.len() as int, id) =~= sorted.push(id));
        sorted.len() as int
    } else {
        let at = lemma_placed_shape(sorted.drop_last(), id, boxes, axis);
        assert(sorted.insert(at, id) =~= sorted.drop_last().insert(at, id).push(sorted.last()));
        assert forall|j: int| at <= j < sorted.len() implies key_of(boxes, axis, #[trigger] sorted[j])
            > key_of(boxes, axis, id) by {
            if j < sorted.len() - 1 {
                assert(sorted[j] == sorted.drop_last()[j]);
            }
        }
        if at > 0 {
            assert(sorted[at - 1] == sorted.drop_last()[at - 1]);
        }
        at
    }
}

/// Ordering changes the order alone: what comes out has exactly the entries
/// that went in, each as often; its keys ascend; and if no entry went in
/// twice, entries with equal keys stand as they stood.
pub proof fn lemma_ordered_is_stable_sort(ids: Seq<usize>, boxes: Seq<Aabb>, axis: int)
    ensures
        ordered(ids, boxes, axis).len() == ids.len(),
        ordered(ids, boxes, axis).to_multiset() == ids.to_multiset(),
        ascending(ordered(ids, boxes, axis), boxes, axis),
        ids.no_duplicates() ==> ordered(ids, boxes, axis).no_duplicates() && keeps_ties(
            ordered(ids, boxes, axis),
            ids,
            boxes,
            axis,
        ),
    decreases ids.len(),
{
    broadcast use vstd::seq_lib::group_to_multiset_ensures;

    if ids.len() == 0 {
        assert(ids =~= Seq::empty());
    } else {
        let init = ids.drop_last();
        let x = ids.last();
        let s = ordered(init, boxes, axis);
        lemma_ordered_is_stable_sort(init, boxes, axis);
        let at = lemma_placed_shape(s, x, boxes, axis);
        let out = s.insert(at, x);
        assert(out == ordered(ids, boxes, axis));
        assert(ids =~= init.push(x));
        assert(out.to_multiset() == ids.to_multiset());
        assert forall|i: int, j: int| 0 <= i < j < out.len() implies key_of(boxes, axis, #[trigger] out[i])
            <= key_of(boxes, axis, #[trigger] out[j]) by {
            let si = if i < at { i } else { i - 1 };
            let sj = if j < at { j } else { j - 1 };
            if i != at && j != at {
                assert(out[i] == s[si] && out[j] == s[sj]);
            } else if i == at {
                assert(out[j] == s[sj]);
            } else {
                assert(out[i] == s[si]);
                if at > 0 && si < at - 1 {
                    assert(key_of(boxes, axis, s[si]) <= key_of(boxes, axis, s[at - 1]));
                }
            }
        }
        if ids.no_duplicates() {
            assert(init.no_duplicates());
            assert(!init.contains(x)) by {
                if init.contains(x) {
                    let k = choose|k: int| 0 <= k < init.len() && init[k] == x;
                    assert(ids[k] == ids[ids.len() - 1]);
                }
            }
            assert(!s.contains(x)) by {
                if s.contains(x) {
                    assert(s.to_multiset().count(x) > 0);
                    assert(init.to_multiset().count(x) > 0);
                }
            }
            assert forall|i: int, j: int| 0 <= i < out.len() && 0 <= j < out.len() && i != j implies out[i]
                != out[j] by {
                let si = if i < at { i } else { i - 1 };
                let sj = if j < at { j } else { j - 1 };
                if i != at && j != at {
                    assert(out[i] == s[si] && out[j] == s[sj]);
                } else if i == at {
                    assert(out[j] == s[sj]);
                    assert(s.contains(s[sj]));
                } else {
                    assert(out[i] == s[si]);
                    assert(s.contains(s[si]));
                }
            }
            assert forall|i: int, j: int|
                0 <= i < j < out.len() && key_of(boxes, axis, #[trigger] out[i]) == key_of(
                    boxes,
                    axis,
                    #[trigger] out[j],
                ) implies ids.index_of(out[i]) < ids.index_of(out[j]) by {
                let si = if i < at { i } else { i - 1 };
                let sj = if j < at { j } else { j - 1 };
                if i != at && j != at {
                    assert(out[i] == s[si] && out[j] == s[sj]);
                    assert(init.index_of(s[si]) < init.index_of(s[sj]));
                    lemma_index_in_prefix(ids, s[si], s);
                    lemma_index_in_prefix(ids, s[sj], s);
                } else if i == at {
                    assert(out[j] == s[sj]);
                    assert(false);
                } else {
                    assert(out[i] == s[si]);
                    assert(out[j] == x);
                    lemma_index_in_prefix(ids, s[si], s);
                    assert(ids[ids.len() - 1] == x);
                    assert(ids.contains(x));
                    let k = ids.index_of(x);
                    assert(0 <= k < ids.len() && ids[k] == x);
                    assert(k == ids.len() - 1);
                }
            }
        }
    }
}

/// An entry of a rearrangement of all of `ids` but the last stands in `ids`
/// where it stands in `ids` without the last.
proof fn lemma_index_in_prefix(ids: Seq<usize>, v: usize, s: Seq<usize>)
    requires
        ids.len() > 0,
        ids.no_duplicates(),
        s.to_multiset() == ids.drop_last().to_multiset(),
        s.contains(v),
    ensures
        ids.drop_last().contains(v),
        ids.index_of(v) == ids.drop_last().index_of(v),
        0 <= ids.index_of(v) < ids.len() - 1,
{
    broadcast use vstd::seq_lib::group_to_multiset_ensures;

    let init = ids.drop_last();
    assert(s.to_multiset().count(v) > 0);
    assert(init.to_multiset().count(v) > 0);
    assert(init.contains(v));
    let k = init.index_of(v);
    assert(0 <= k < init.len() && init[k] == v);
    assert(ids[k] == v);
    assert(ids.contains(v));
    let m = ids.index_of(v);
    assert(0 <= m < ids.len() && ids[m] == v);
    assert(m == k);
}

/// Two lists woven into one: the last place goes to the last entry of `b`
/// unless that of `a` has the greater key, and so on towards the front.
pub open spec fn merged(a: Seq<usize>, b: Seq<usize>, boxes: Seq<Aabb>, axis: int) -> Seq<usize>
    decreases a.len() + b.len(),
{
    if a.len() == 0 {
        b
    } else if b.len() == 0 {
        a
    } else if key_of(boxes, axis, a.last()) <= key_of(boxes, axis, b.last()) {
        merged(a, b.drop_last(), boxes, axis).push(b.last())
    } else {
        merged(a.drop_last(), b, boxes, axis).push(a.last())
    }
}

/// Placing an entry in the second of two lists and weaving them comes to
/// weaving them and placing the entry in the result.
proof fn lemma_merged_placed(a: Seq<usize>, b: Seq<usize>, id: usize, boxes: Seq<Aabb>, axis: int)
    ensures
        merged(a, placed(b, id, boxes, axis), boxes, axis) == placed(merged(a, b, boxes, axis), id, boxes, axis),
    decreases a.len() + b.len(),
{
    let k = |v: usize| key_of(boxes, axis, v);
    let grown = placed(b, id, boxes, axis);
    if a.len() == 0 {
        assert(grown.len() > 0 ==> merged(a, grown, boxes, axis) == grown);
    } else if b.len() == 0 {
        assert(grown =~= seq![id]);
        assert(grown.last() == id);
        assert(grown.drop_last() =~= Seq::<usize>::empty());
        if k(a.last()) <= k(id) {
            assert(merged(a, Seq::<usize>::empty(), boxes, axis) == a);
        } else {
            lemma_merged_placed(a.drop_last(), b, id, boxes, axis);
            assert(merged(a.drop_last(), b, boxes, axis) == a.drop_last());
        }
    } else if k(b.last()) <= k(id) {
        assert(grown == b.push(id));
        assert(grown.last() == id);
        assert(grown.drop_last() =~= b);
        if k(a.last()) <= k(id) {
            let woven = merged(a, b, boxes, axis);
            assert(woven.last() == a.last() || woven.last() == b.last());
        } else {
            lemma_merged_placed(a.drop_last(), b, id, boxes, axis);
            let woven = merged(a.drop_last(), b, boxes, axis).push(a.last());
            assert(woven == merged(a, b, boxes, axis));
            assert(woven.last() == a.last());
            assert(woven.drop_last() =~= merged(a.drop_last(), b, boxes, axis));
        }
    } else {
        let shorter = placed(b.drop_last(), id, boxes, axis);
        assert(grown == shorter.push(b.last()));
        assert(grown.last() == b.last());
        assert(grown.drop_last() =~= shorter);
        if k(a.last()) <= k(b.last()) {
            lemma_merged_placed(a, b.drop_last(), id, boxes, axis);
            let woven = merged(a, b.drop_last(), boxes, axis).push(b.last());
            assert(woven == merged(a, b, boxes, axis));
            assert(woven.last() == b.last());
            assert(woven.drop_last() =~= merged(a, b.drop_last(), boxes, axis));
        } else {
            lemma_merged_placed(a.drop_last(), b, id, boxes, axis);
            let woven = merged(a.drop_last(), b, boxes, axis).push(a.last());
            assert(woven == merged(a, b, boxes, axis));
            assert(woven.last() == a.last());
            assert(woven.drop_last() =~= merged(a.drop_last(), b, boxes, axis));
        }
    }
}

/// Ordering two lists and weaving them is ordering the one list that they
/// make.
pub proof fn lemma_merged_is_ordered(a: Seq<usize>, b: Seq<usize>, boxes: Seq<Aabb>, axis: int)
    ensures
        merged(ordered(a, boxes, axis), ordered(b, boxes, axis), boxes, axis) == ordered(a + b, boxes, axis),
    decreases b.len(),
{
    if b.len() == 0 {
        assert(a + b =~= a);
        assert(ordered(b, boxes, axis) =~= Seq::<usize>::empty());
        let sorted = ordered(a, boxes, axis);
        assert(merged(sorted, Seq::<usize>::empty(), boxes, axis) == sorted);
    } else {
        lemma_merged_is_ordered(a, b.drop_last(), boxes, axis);
        lemma_merged_placed(ordered(a, boxes, axis), ordered(b.drop_last(), boxes, axis), b.last(), boxes, axis);
        assert((a + b).drop_last() =~= a + b.drop_last());
        assert((a + b).last() == b.last());
    }
}

/// Ordering keeps every object within the list of boxes.
pub proof fn lemma_ordered_within(ids: Seq<usize>, boxes: Seq<Aabb>, axis: int)
    requires
        forall|k: int| 0 <= k < ids.len() ==> (#[trigger] ids[k]) < boxes.len(),
    ensures
        ordered(ids, boxes, axis).len() == ids.len(),
        forall|k: int| 0 <= k < ids.len() ==> (#[trigger] ordered(ids, boxes, axis)[k]) < boxes.len(),
{
    broadcast use vstd::seq_lib::group_to_multiset_ensures;

    lemma_ordered_is_stable_sort(ids, boxes, axis);
    let s = ordered(ids, boxes, axis);
    assert forall|k: int| 0 <= k < ids.len() implies (#[trigger] s[k]) < boxes.len() by {
        assert(s.to_multiset().count(s[k]) > 0);
        assert(ids.contains(s[k]));
    }
}

/// Weaves two lists into one, from the back.
fn merge(left: &Vec<usize>, right: &Vec<usize>, boxes: &Vec<Aabb>, axis: usize) -> (out: Vec<usize>)
    requires
        forall|k: int| 0 <= k < left@.len() ==> (#[trigger] left@[k]) < boxes@.len(),
        forall|k: int| 0 <= k < right@.len() ==> (#[trigger] right@[k]) < boxes@.len(),
        left@.len() + right@.len() <= usize::MAX,
    ensures
        out@ == merged(left@, right@, boxes@, axis as int),
{
    let n = left.len() + right.len();
    let mut out: Vec<usize> = Vec::new();
    let mut filled: usize = 0;
    while filled < n
        invariant
            filled <= n,
            out@.len() == filled,
        decreases n - filled,
    {
        out.push(0);
        filled = filled + 1;
    }
    let mut i = left.len();
    let mut j = right.len();
    let mut k = n;
    proof {
        assert(left@.subrange(0, i as int) =~= left@);
        assert(right@.subrange(0, j as int) =~= right@);
        assert(out@.subrange(k as int, n as int) =~= Seq::<usize>::empty());
        assert(merged(left@, right@, boxes@, axis as int) + Seq::<usize>::empty() =~= merged(
            left@,
            right@,
            boxes@,
            axis as int,
        ));
    }
    while k > 0
        invariant
            n == left@.len() + right@.len(),
            out@.len() == n,
            i <= left@.len(),
            j <= right@.len(),
            k == i + j,
            forall|k: int| 0 <= k < left@.len() ==> (#[trigger] left@[k]) < boxes@.len(),
            forall|k: int| 0 <= k < right@.len() ==> (#[trigger] right@[k]) < boxes@.len(),
            merged(left@, right@, boxes@, axis as int) == merged(
                left@.subrange(0, i as int),
                right@.subrange(0, j as int),
                boxes@,
                axis as int,
            ) + out@.subrange(k as int, n as int),
        decreases k,
    {
        let ghost a = left@.subrange(0, i as int);
        let ghost b = right@.subrange(0, j as int);
        let ghost tail = out@.subrange(k as int, n as int);
        let from_right = if i == 0 {
            true
        } else if j == 0 {
            false
        } else {
            boxes[left[i - 1]].min.index(axis).rank() <= boxes[right[j - 1]].min.index(axis).rank()
        };
        if from_right {
            let v = right[j - 1];
            out.set(k - 1, v);
            j = j - 1;
            proof {
                let shorter = right@.subrange(0, j as int);
                assert(b.last() == v);
                assert(b.drop_last() =~= shorter);
                if a.len() == 0 {
                    assert(merged(a, b, boxes@, axis as int) == b);
                    assert(merged(a, shorter, boxes@, axis as int) == shorter);
                    assert(b =~= shorter.push(v));
                }
                assert(merged(a, b, boxes@, axis as int) == merged(a, shorter, boxes@, axis as int).push(v));
                assert(out@.subrange(k as int - 1, n as int) =~= seq![v] + tail);
                assert(merged(a, shorter, boxes@, axis as int).push(v) + tail =~= merged(
                    a,
                    shorter,
                    boxes@,
                    axis as int,
                ) + (seq![v] + tail));
            }
        } else {
            let v = left[i - 1];
            out.set(k - 1, v);
            i = i - 1;
            proof {
                let shorter = left@.subrange(0, i as int);
                assert(a.last() == v);
                assert(a.drop_last() =~= shorter);
                if b.len() == 0 {
                    assert(merged(a, b, boxes@, axis as int) == a);
                    assert(merged(shorter, b, boxes@, axis as int) == shorter) by {
                        if shorter.len() == 0 {
                            assert(shorter =~= b);
                        }
                    }
                    assert(a =~= shorter.push(v));
                }
                assert(merged(a, b, boxes@, axis as int) == merged(shorter, b, boxes@, axis as int).push(v));
                assert(out@.subrange(k as int - 1, n as int) =~= seq![v] + tail);
                assert(merged(shorter, b, boxes@, axis as int).push(v) + tail =~= merged(
                    shorter,
                    b,
                    boxes@,
                    axis as int,
                ) + (seq![v] + tail));
            }
        }
        k = k - 1;
    }
    proof {
        assert(left@.subrange(0, 0) =~= Seq::<usize>::empty());
        assert(right@.subrange(0, 0) =~= Seq::<usize>::empty());
        assert(out@.subrange(0, n as int) =~= out@);
        assert(Seq::<usize>::empty() + out@ =~= out@);
    }
    out
}

/// The entries of `ids` from `from` up to, but not including, `to`.
fn part(ids: &Vec<usize>, from: usize, to: usize) -> (out: Vec<usize>)
    requires
        from <= to <= ids@.len(),
    ensures
        out@ == ids@.subrange(from as int, to as int),
{
    let mut out: Vec<usize> = Vec::new();
    let mut k = from;
    while k < to
        invariant
            from <= k <= to,
            to <= ids@.len(),
            out@ == ids@.subrange(from as int, k as int),
        decreases to - k,
    {
        out.push(ids[k]);
        assert(out@ =~= ids@.subrange(from as int, k as int + 1));
        k = k + 1;
    }
    out
}

/// Sorts `ids` by their keys along `axis`, least first, without reordering
/// objects whose keys are equal: each half is sorted, and the two are woven.
pub fn sort_by_axis(ids: &Vec<usize>, boxes: &Vec<Aabb>, axis: usize) -> (sorted: Vec<usize>)
    requires
        forall|k: int| 0 <= k < ids@.len() ==> (#[trigger] ids@[k]) < boxes@.len(),
    ensures
        sorted@ == ordered(ids@, boxes@, axis as int),
    decreases ids@.len(),
{
    let n = ids.len();
    if n <= 1 {
        let same = part(ids, 0, n);
        proof {
            assert(same@ =~= ids@);
            if n == 1 {
                assert(ids@.drop_last() =~= Seq::<usize>::empty());
                assert(ordered(ids@.drop_last(), boxes@, axis as int) =~= Seq::<usize>::empty());
                assert(ordered(ids@, boxes@, axis as int) =~= seq![ids@.last()]);
                assert(ids@ =~= seq![ids@.last()]);
            } else {
                assert(ordered(ids@, boxes@, axis as int) =~= ids@);
            }
        }
        return same;
    }
    let mid = n / 2;
    let first = part(ids, 0, mid);
    let second = part(ids, mid, n);
    let left = sort_by_axis(&first, boxes, axis);
    let right = sort_by_axis(&second, boxes, axis);
    proof {
        lemma_ordered_within(first@, boxes@, axis as int);
        lemma_ordered_within(second@, boxes@, axis as int);
        lemma_merged_is_ordered(first@, second@, boxes@, axis as int);
        assert(first@ + second@ =~= ids@);
    }
    merge(&left, &right, boxes, axis)
}

} // verus!
