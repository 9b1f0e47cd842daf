//! The stable sort of primitives by the minimum corner of their boxes.

use vstd::prelude::*;
use crate::accel::aabb::Geometry;
use crate::utilities::mathutils::{fp_order_key, order_key};

verus! {

impl Geometry {
    /// The key by which a primitive is sorted along `axis`: the order key of
    /// the minimum corner of its box on that axis.
    pub open spec fn sort_key(self, axis: int) -> int {
        order_key(self.bounding_box.min.component(axis))
    }

    pub fn key_along(&self, axis: i32) -> (r: i64)
        ensures
            r == self.sort_key(axis as int),
    {
        if axis == 0 {
            fp_order_key(self.bounding_box.min.x)
        } else if axis == 1 {
            fp_order_key(self.bounding_box.min.y)
        } else {
            fp_order_key(self.bounding_box.min.z)
        }
    }
}

/// Two lists woven into one: at each step the head with the smaller key goes
/// first, and the head of `a` where the keys are equal.
pub open spec fn merged(a: Seq<Geometry>, b: Seq<Geometry>, axis: int) -> Seq<Geometry>
    decreases a.len() + b.len(),
{
    if a.len() == 0 {
        b
    } else if b.len() == 0 {
        a
    } else if b[0].sort_key(axis) < a[0].sort_key(axis) {
        seq![b[0]] + merged(a, b.skip(1), axis)
    } else {
        seq![a[0]] + merged(a.skip(1), b, axis)
    }
}

/// The list sorted along `axis`: both halves sorted, then woven together.
pub open spec fn sorted_along(s: Seq<Geometry>, axis: int) -> Seq<Geometry>
    decreases s.len(),
{
    if s.len() <= 1 {
        s
    } else {
        let mid = s.len() as int / 2;
        merged(sorted_along(s.take(mid), axis), sorted_along(s.skip(mid), axis), axis)
    }
}

/// Keys never go down along the list.
pub open spec fn is_ordered(s: Seq<Geometry>, axis: int) -> bool {
    forall|i: int, j: int| 0 <= i <= j < s.len() ==> s[i].sort_key(axis) <= s[j].sort_key(axis)
}

/// The elements of `v` from `lo` up to `hi`.
pub fn copy_range(v: &Vec<Geometry>, lo: usize, hi: usize) -> (r: Vec<Geometry>)
    requires
        lo <= hi <= v.len(),
    ensures
        r@ == v@.subrange(lo as int, hi as int),
{
    let mut r: Vec<Geometry> = Vec::new();
    let mut i: usize = lo;
    while i < hi
        invariant
            lo <= i <= hi <= v.len(),
            r@ == v@.subrange(lo as int, i as int),
        decreases hi - i,
    {
        r.push(v[i]);
        assert(r@ =~= v@.subrange(lo as int, i + 1));
        i = i + 1;
    }
    r
}

/// Weaves two lists into one, as `merged` says.
pub fn merge(a: &Vec<Geometry>, b: &Vec<Geometry>, axis: i32) -> (r: Vec<Geometry>)
    requires
        a.len() + b.len() <= usize::MAX,
    ensures
        r@ == merged(a@, b@, axis as int),
{
    let mut r: Vec<Geometry> = Vec::new();
    let mut i: usize = 0;
    let mut j: usize = 0;
    proof {
        assert(a@.skip(0) =~= a@);
        assert(b@.skip(0) =~= b@);
        assert(r@ + merged(a@, b@, axis as int) =~= merged(a@, b@, axis as int));
    }
    while i < a.len() || j < b.len()
        invariant
            0 <= i <= a.len(),
            0 <= j <= b.len(),
            merged(a@, b@, axis as int) == r@ + merged(a@.skip(i as int), b@.skip(j as int), axis as int),
        decreases a.len() - i + b.len() - j,
    {
        let ghost rest_a = a@.skip(i as int);
        let ghost rest_b = b@.skip(j as int);
        let ghost before = r@;
        if i == a.len() {
            r.push(b[j]);
            proof {
                assert(merged(rest_a, rest_b, axis as int) == rest_b);
                assert(merged(a@.skip(i as int), b@.skip(j + 1), axis as int) == b@.skip(j + 1));
                assert(before + rest_b =~= r@ + b@.skip(j + 1));
            }
            j = j + 1;
        } else if j == b.len() {
            r.push(a[i]);
            proof {
                assert(merged(rest_a, rest_b, axis as int) == rest_a);
                assert(merged(a@.skip(i + 1), b@.skip(j as int), axis as int) == a@.skip(i + 1));
                assert(before + rest_a =~= r@ + a@.skip(i + 1));
            }
            i = i + 1;
        } else if b[j].key_along(axis) < a[i].key_along(axis) {
            r.push(b[j]);
            proof {
                assert(rest_b.skip(1) =~= b@.skip(j + 1));
                assert(before + (seq![rest_b[0]] + merged(rest_a, rest_b.skip(1), axis as int)) =~= r@
                    + merged(rest_a, rest_b.skip(1), axis as int));
            }
            j = j + 1;
        } else {
            r.push(a[i]);
            proof {
                assert(rest_a.skip(1) =~= a@.skip(i + 1));
                assert(before + (seq![rest_a[0]] + merged(rest_a.skip(1), rest_b, axis as int)) =~= r@
                    + merged(rest_a.skip(1), rest_b, axis as int));
            }
            i = i + 1;
        }
    }
    proof {
        assert(a@.skip(i as int) =~= Seq::<Geometry>::empty());
        assert(r@ + b@.skip(j as int) =~= r@);
    }
    r
}

/// Sorts the list by the minimum corner of the boxes along `axis`. The sort is
/// stable: primitives with equal keys keep their order.
pub fn sort_along(geometries: Vec<Geometry>, axis: i32) -> (r: Vec<Geometry>)
    ensures
        r@ == sorted_along(geometries@, axis as int),
    decreases geometries.len(),
{
    let n: usize = geometries.len();
    if n <= 1 {
        return geometries;
    }
    let mid: usize = n / 2;
    let left: Vec<Geometry> = copy_range(&geometries, 0, mid);
    let right: Vec<Geometry> = copy_range(&geometries, mid, n);
    proof {
        assert(geometries@.take(mid as int) =~= geometries@.subrange(0, mid as int));
        assert(geometries@.skip(mid as int) =~= geometries@.subrange(mid as int, n as int));
        lemma_sorted_is_permutation(left@, axis as int);
        lemma_sorted_is_permutation(right@, axis as int);
    }
    let sorted_left: Vec<Geometry> = sort_along(left, axis);
    let sorted_right: Vec<Geometry> = sort_along(right, axis);
    merge(&sorted_left, &sorted_right, axis)
}

/// Weaving keeps every element, as often as it occurs.
pub proof fn lemma_merged_is_permutation(a: Seq<Geometry>, b: Seq<Geometry>, axis: int)
    ensures
        merged(a, b, axis).len() == a.len() + b.len(),
        merged(a, b, axis).to_multiset() == a.to_multiset().add(b.to_multiset()),
    decreases a.len() + b.len(),
{
    broadcast use vstd::seq_lib::group_to_multiset_ensures;

    if a.len() == 0 {
        assert(a.to_multiset() =~= vstd::multiset::Multiset::<Geometry>::empty());
        assert(a.to_multiset().add(b.to_multiset()) =~= b.to_multiset());
    } else if b.len() == 0 {
        assert(b.to_multiset() =~= vstd::multiset::Multiset::<Geometry>::empty());
        assert(a.to_multiset().add(b.to_multiset()) =~= a.to_multiset());
    } else if b[0].sort_key(axis) < a[0].sort_key(axis) {
        let rest = merged(a, b.skip(1), axis);
        lemma_merged_is_permutation(a, b.skip(1), axis);
        lemma_cons_multiset(b[0], rest);
        lemma_cons_multiset(b[0], b.skip(1));
        assert(seq![b[0]] + b.skip(1) =~= b);
        assert(merged(a, b, axis).to_multiset() =~= a.to_multiset().add(b.to_multiset()));
    } else {
        let rest = merged(a.skip(1), b, axis);
        lemma_merged_is_permutation(a.skip(1), b, axis);
        lemma_cons_multiset(a[0], rest);
        lemma_cons_multiset(a[0], a.skip(1));
        assert(seq![a[0]] + a.skip(1) =~= a);
        assert(merged(a, b, axis).to_multiset() =~= a.to_multiset().add(b.to_multiset()));
    }
}

/// Putting an element in front of a list adds it once to the list's multiset.
pub proof fn lemma_cons_multiset(head: Geometry, tail: Seq<Geometry>)
    ensures
        (seq![head] + tail).to_multiset() == tail.to_multiset().insert(head),
{
    broadcast use vstd::seq_lib::group_to_multiset_ensures;

    vstd::seq_lib::lemma_multiset_commutative(seq![head], tail);
    assert(seq![head] =~= Seq::<Geometry>::empty().push(head));
    assert(Seq::<Geometry>::empty().to_multiset() =~= vstd::multiset::Multiset::<Geometry>::empty());
    assert((seq![head] + tail).to_multiset() =~= tail.to_multiset().insert(head));
}

/// Sorting keeps every primitive, as often as it occurs in the list.
pub proof fn lemma_sorted_is_permutation(s: Seq<Geometry>, axis: int)
    ensures
        sorted_along(s, axis).len() == s.len(),
        sorted_along(s, axis).to_multiset() == s.to_multiset(),
    decreases s.len(),
{
    if s.len() > 1 {
        let mid = s.len() as int / 2;
        lemma_sorted_is_permutation(s.take(mid), axis);
        lemma_sorted_is_permutation(s.skip(mid), axis);
        lemma_merged_is_permutation(sorted_along(s.take(mid), axis), sorted_along(s.skip(mid), axis), axis);
        vstd::seq_lib::lemma_multiset_commutative(s.take(mid), s.skip(mid));
        assert(s.take(mid) + s.skip(mid) =~= s);
    }
}

/// Weaving two ordered lists gives an ordered list whose first key is the
/// smaller of the two first keys.
pub proof fn lemma_merged_is_ordered(a: Seq<Geometry>, b: Seq<Geometry>, axis: int)
    requires
        is_ordered(a, axis),
        is_ordered(b, axis),
    ensures
        is_ordered(merged(a, b, axis), axis),
        a.len() + b.len() > 0 ==> merged(a, b, axis).len() > 0,
        a.len() > 0 && b.len() > 0 ==> merged(a, b, axis)[0].sort_key(axis) == (if b[0].sort_key(axis)
            < a[0].sort_key(axis) {
            b[0].sort_key(axis)
        } else {
            a[0].sort_key(axis)
        }),
        a.len() > 0 && b.len() == 0 ==> merged(a, b, axis)[0] == a[0],
        a.len() == 0 && b.len() > 0 ==> merged(a, b, axis)[0] == b[0],
    decreases a.len() + b.len(),
{
    if a.len() == 0 || b.len() == 0 {
    } else if b[0].sort_key(axis) < a[0].sort_key(axis) {
        let tail = b.skip(1);
        lemma_rest_is_ordered(b, axis);
        lemma_merged_is_ordered(a, tail, axis);
        let rest = merged(a, tail, axis);
        let all = merged(a, b, axis);
        assert(all == seq![b[0]] + rest);
        if tail.len() > 0 {
            assert(tail[0] == b[1]);
        }
        assert forall|i: int, j: int| 0 <= i <= j < all.len() implies all[i].sort_key(axis) <= all[j].sort_key(
            axis,
        ) by {
            if i > 0 {
                assert(all[i] == rest[i - 1] && all[j] == rest[j - 1]);
            } else if j > 0 {
                assert(all[j] == rest[j - 1]);
                assert(rest[0].sort_key(axis) <= rest[j - 1].sort_key(axis));
            }
        }
    } else {
        let tail = a.skip(1);
        lemma_rest_is_ordered(a, axis);
        lemma_merged_is_ordered(tail, b, axis);
        let rest = merged(tail, b, axis);
        let all = merged(a, b, axis);
        assert(all == seq![a[0]] + rest);
        if tail.len() > 0 {
            assert(tail[0] == a[1]);
        }
        assert forall|i: int, j: int| 0 <= i <= j < all.len() implies all[i].sort_key(axis) <= all[j].sort_key(
            axis,
        ) by {
            if i > 0 {
                assert(all[i] == rest[i - 1] && all[j] == rest[j - 1]);
            } else if j > 0 {
                assert(all[j] == rest[j - 1]);
                assert(rest[0].sort_key(axis) <= rest[j - 1].sort_key(axis));
            }
        }
    }
}

/// A sorted list is ordered by its keys.
pub proof fn lemma_sorted_is_ordered(s: Seq<Geometry>, axis: int)
    ensures
        is_ordered(sorted_along(s, axis), axis),
    decreases s.len(),
{
    if s.len() > 1 {
        let mid = s.len() as int / 2;
        lemma_sorted_is_ordered(s.take(mid), axis);
        lemma_sorted_is_ordered(s.skip(mid), axis);
        lemma_merged_is_ordered(sorted_along(s.take(mid), axis), sorted_along(s.skip(mid), axis), axis);
    }
}

/// The primitives of a list that have the given key along `axis`, in their
/// order in the list.
pub open spec fn with_key(s: Seq<Geometry>, axis: int, key: int) -> Seq<Geometry> {
    s.filter(|g: Geometry| g.sort_key(axis) == key)
}

/// A list in which no primitive has the key holds none with that key.
pub proof fn lemma_with_key_of_others(s: Seq<Geometry>, axis: int, key: int)
    requires
        forall|i: int| 0 <= i < s.len() ==> (#[trigger] s[i]).sort_key(axis) != key,
    ensures
        with_key(s, axis, key) == Seq::<Geometry>::empty(),
    decreases s.len(),
{
    reveal(Seq::filter);
    if s.len() > 0 {
        let front = s.drop_last();
        assert forall|i: int| 0 <= i < front.len() implies (#[trigger] front[i]).sort_key(axis) != key by {
            assert(front[i] == s[i]);
        }
        lemma_with_key_of_others(front, axis, key);
        assert(s.last() == s[s.len() - 1]);
    } else {
        assert(s =~= Seq::<Geometry>::empty());
    }
}

/// The rest of an ordered list is ordered.
pub proof fn lemma_rest_is_ordered(s: Seq<Geometry>, axis: int)
    requires
        is_ordered(s, axis),
        s.len() > 0,
    ensures
        is_ordered(s.skip(1), axis),
{
    let tail = s.skip(1);
    assert forall|i: int, j: int| 0 <= i <= j < tail.len() implies tail[i].sort_key(axis) <= tail[j].sort_key(
        axis,
    ) by {
        assert(tail[i] == s[i + 1] && tail[j] == s[j + 1]);
    }
}

/// Weaving two ordered lists keeps, among the primitives of one key, those of
/// the first list before those of the second, each in their order.
pub proof fn lemma_merged_is_stable(a: Seq<Geometry>, b: Seq<Geometry>, axis: int, key: int)
    requires
        is_ordered(a, axis),
        is_ordered(b, axis),
    ensures
        with_key(merged(a, b, axis), axis, key) == with_key(a, axis, key) + with_key(b, axis, key),
    decreases a.len() + b.len(),
{
    let pred = |g: Geometry| g.sort_key(axis) == key;
    let none = Seq::<Geometry>::empty();
    if a.len() == 0 {
        lemma_with_key_of_others(a, axis, key);
        assert(none + with_key(b, axis, key) =~= with_key(b, axis, key));
    } else if b.len() == 0 {
        lemma_with_key_of_others(b, axis, key);
        assert(with_key(a, axis, key) + none =~= with_key(a, axis, key));
    } else if b[0].sort_key(axis) < a[0].sort_key(axis) {
        let head = seq![b[0]];
        let tail = b.skip(1);
        lemma_rest_is_ordered(b, axis);
        lemma_merged_is_stable(a, tail, axis, key);
        Seq::filter_distributes_over_add(head, merged(a, tail, axis), pred);
        Seq::filter_distributes_over_add(head, tail, pred);
        assert(head + tail =~= b);
        if b[0].sort_key(axis) == key {
            assert forall|i: int| 0 <= i < a.len() implies (#[trigger] a[i]).sort_key(axis) != key by {
                assert(a[0].sort_key(axis) <= a[i].sort_key(axis));
            }
            lemma_with_key_of_others(a, axis, key);
            assert(with_key(head, axis, key) + (none + with_key(tail, axis, key)) =~= none + (with_key(
                head,
                axis,
                key,
            ) + with_key(tail, axis, key)));
        } else {
            assert(head[0] == b[0]);
            lemma_with_key_of_others(head, axis, key);
            assert(none + (with_key(a, axis, key) + with_key(tail, axis, key)) =~= with_key(a, axis, key) + (none
                + with_key(tail, axis, key)));
        }
    } else {
        let head = seq![a[0]];
        let tail = a.skip(1);
        lemma_rest_is_ordered(a, axis);
        lemma_merged_is_stable(tail, b, axis, key);
        Seq::filter_distributes_over_add(head, merged(tail, b, axis), pred);
        Seq::filter_distributes_over_add(head, tail, pred);
        assert(head + tail =~= a);
        assert(with_key(head, axis, key) + (with_key(tail, axis, key) + with_key(b, axis, key)) =~= (with_key(
            head,
            axis,
            key,
        ) + with_key(tail, axis, key)) + with_key(b, axis, key));
    }
}

/// The sort is stable: the primitives of one key stand in the sorted list in
/// the order in which they stood in the given list.
pub proof fn lemma_sorted_is_stable(s: Seq<Geometry>, axis: int, key: int)
    ensures
        with_key(sorted_along(s, axis), axis, key) == with_key(s, axis, key),
    decreases s.len(),
{
    if s.len() > 1 {
        let mid = s.len() as int / 2;
        let pred = |g: Geometry| g.sort_key(axis) == key;
        lemma_sorted_is_stable(s.take(mid), axis, key);
        lemma_sorted_is_stable(s.skip(mid), axis, key);
        lemma_sorted_is_ordered(s.take(mid), axis);
        lemma_sorted_is_ordered(s.skip(mid), axis);
        lemma_merged_is_stable(sorted_along(s.take(mid), axis), sorted_along(s.skip(mid), axis), axis, key);
        Seq::filter_distributes_over_add(s.take(mid), s.skip(mid), pred);
        assert(s.take(mid) + s.skip(mid) =~= s);
    }
}

} // verus!
