//! What holds of every hierarchy that `construct_bvh` builds, and of every
//! search in one.

use vstd::prelude::*;
use crate::accel::aabb::{
    lemma_union_contains, longest_axis_of, passes_slabs, union_of_all, AxisAlignedBoundingBox, Geometry,
};
use crate::accel::bvh_node::{arranged, BVHNode, Child};
use crate::accel::sorting::lemma_sorted_is_permutation;
use crate::common::IntersectionInfo;
use crate::scene::{all_hits_finite, closest_in_order, is_closest_of, lemma_closest_in_order_is_closest};
use crate::utilities::mathutils::{is_nan, order_key, Vector3};

verus! {

/// An arranged list holds the primitives of the given list, and no others.
pub proof fn lemma_arranged_keeps_primitives(geometries: Seq<Geometry>, axis: int)
    ensures
        arranged(geometries, axis).len() == geometries.len(),
        forall|g: Geometry| arranged(geometries, axis).contains(g) <==> geometries.contains(g),
{
    broadcast use vstd::seq_lib::group_to_multiset_ensures;

    if 0 <= axis < 3 {
        lemma_sorted_is_permutation(geometries, axis);
        let list = arranged(geometries, axis);
        assert forall|g: Geometry| list.contains(g) <==> geometries.contains(g) by {
            assert(list.to_multiset().count(g) == geometries.to_multiset().count(g));
        }
    }
}

/// In a hierarchy every node's box is the union of its children's boxes.
pub proof fn lemma_hierarchy_is_consistent(
    node: BVHNode,
    geometries: Seq<Geometry>,
    extent: spec_fn(AxisAlignedBoundingBox, Vector3) -> bool,
)
    requires
        node.is_hierarchy_of(geometries, extent),
    ensures
        node.is_consistent(),
    decreases node,
{
    if geometries.len() > 2 {
        let size = choose|size: Vector3| #[trigger]
            extent(union_of_all(geometries), size) && node.is_split_of(geometries, longest_axis_of(size), extent);
        let axis = longest_axis_of(size);
        let list = arranged(geometries, axis);
        let mid = geometries.len() as int / 2;
        match (node.left_child, node.right_child) {
            (Child::Inner(left), Child::Inner(right)) => {
                lemma_hierarchy_is_consistent(*left, list.take(mid), extent);
                lemma_hierarchy_is_consistent(*right, list.skip(mid), extent);
            },
            _ => {},
        }
    }
}

/// The leaves of a hierarchy are the primitives it was built over: each of
/// them is a leaf, and there is no other leaf.
pub proof fn lemma_hierarchy_leaves(
    node: BVHNode,
    geometries: Seq<Geometry>,
    extent: spec_fn(AxisAlignedBoundingBox, Vector3) -> bool,
)
    requires
        node.is_hierarchy_of(geometries, extent),
    ensures
        forall|g: Geometry| node.leaves().contains(g) <==> geometries.contains(g),
    decreases node,
{
    if geometries.len() == 1 {
        let leaves = node.leaves();
        assert(leaves =~= seq![geometries[0], geometries[0]]);
        assert forall|g: Geometry| leaves.contains(g) <==> geometries.contains(g) by {
            if leaves.contains(g) {
                assert(g == geometries[0]);
            }
            if geometries.contains(g) {
                assert(leaves[0] == g);
            }
        }
    } else if geometries.len() == 2 {
        let leaves = node.leaves();
        assert(leaves =~= seq![geometries[0], geometries[1]]);
        assert forall|g: Geometry| leaves.contains(g) <==> geometries.contains(g) by {
            if leaves.contains(g) {
                assert(g == geometries[0] || g == geometries[1]);
            }
            if geometries.contains(g) {
                assert(leaves[0] == g || leaves[1] == g);
            }
        }
    } else if geometries.len() > 2 {
        let size = choose|size: Vector3| #[trigger]
            extent(union_of_all(geometries), size) && node.is_split_of(geometries, longest_axis_of(size), extent);
        let axis = longest_axis_of(size);
        let list = arranged(geometries, axis);
        let mid = geometries.len() as int / 2;
        lemma_arranged_keeps_primitives(geometries, axis);
        match (node.left_child, node.right_child) {
            (Child::Inner(left), Child::Inner(right)) => {
                lemma_hierarchy_leaves(*left, list.take(mid), extent);
                lemma_hierarchy_leaves(*right, list.skip(mid), extent);
                let leaves = node.leaves();
                assert(leaves == left.leaves() + right.leaves());
                assert(list =~= list.take(mid) + list.skip(mid));
                assert forall|g: Geometry| leaves.contains(g) <==> geometries.contains(g) by {
                    lemma_contains_of_concat(left.leaves(), right.leaves(), g);
                    lemma_contains_of_concat(list.take(mid), list.skip(mid), g);
                }
            },
            _ => {},
        }
    }
}

/// An element is in two lists put together exactly if it is in one of them.
pub proof fn lemma_contains_of_concat(a: Seq<Geometry>, b: Seq<Geometry>, g: Geometry)
    ensures
        (a + b).contains(g) <==> a.contains(g) || b.contains(g),
{
    if a.contains(g) {
        let i = choose|i: int| 0 <= i < a.len() && a[i] == g;
        assert((a + b)[i] == g);
    }
    if b.contains(g) {
        let i = choose|i: int| 0 <= i < b.len() && b[i] == g;
        assert((a + b)[a.len() + i] == g);
    }
    if (a + b).contains(g) {
        let i = choose|i: int| 0 <= i < (a + b).len() && (a + b)[i] == g;
        if i < a.len() {
            assert(a[i] == g);
        } else {
            assert(b[i - a.len()] == g);
        }
    }
}

/// In a consistent tree whose leaves have boxes without NaN, the box of the
/// root has none either and contains the box of every leaf.
pub proof fn lemma_box_contains_leaves(node: BVHNode)
    requires
        node.is_consistent(),
        forall|i: int| 0 <= i < node.leaves().len() ==> (#[trigger] node.leaves()[i]).bounding_box.is_numeric(),
    ensures
        node.aabb.is_numeric(),
        forall|i: int| 0 <= i < node.leaves().len() ==> node.aabb.contains((#[trigger] node.leaves()[i]).bounding_box),
    decreases node,
{
    let left = node.left_child.leaves();
    let right = node.right_child.leaves();
    let leaves = node.leaves();
    assert(leaves == left + right);
    assert forall|i: int| 0 <= i < left.len() implies (#[trigger] left[i]).bounding_box.is_numeric() by {
        assert(leaves[i] == left[i]);
    }
    assert forall|i: int| 0 <= i < right.len() implies (#[trigger] right[i]).bounding_box.is_numeric() by {
        assert(leaves[left.len() + i] == right[i]);
    }
    lemma_child_box_contains_leaves(node.left_child);
    lemma_child_box_contains_leaves(node.right_child);
    let l = node.left_child.bounds_of();
    let r = node.right_child.bounds_of();
    lemma_union_contains(l, r);
    assert forall|i: int| 0 <= i < leaves.len() implies node.aabb.contains((#[trigger] leaves[i]).bounding_box) by {
        if i < left.len() {
            assert(leaves[i] == left[i]);
            assert(l.contains(left[i].bounding_box));
        } else {
            assert(leaves[i] == right[i - left.len()]);
            assert(r.contains(right[i - left.len()].bounding_box));
        }
    }
}

/// The same of what hangs below a child.
pub proof fn lemma_child_box_contains_leaves(child: Child)
    requires
        child.is_consistent(),
        forall|i: int| 0 <= i < child.leaves().len() ==> (#[trigger] child.leaves()[i]).bounding_box.is_numeric(),
    ensures
        child.bounds_of().is_numeric(),
        forall|i: int|
            0 <= i < child.leaves().len() ==> child.bounds_of().contains((#[trigger] child.leaves()[i]).bounding_box),
    decreases child,
{
    match child {
        Child::Leaf(g) => {
            assert(child.leaves() =~= seq![g]);
            assert(child.leaves()[0] == g);
        },
        Child::Inner(node) => {
            assert(child.leaves() == node.leaves());
            lemma_box_contains_leaves(*node);
        },
    }
}

/// The box of a hierarchy's root contains the box of every primitive that the
/// hierarchy was built over, whatever the extents were taken to be.
pub proof fn lemma_root_box_contains_primitives(
    node: BVHNode,
    geometries: Seq<Geometry>,
    extent: spec_fn(AxisAlignedBoundingBox, Vector3) -> bool,
)
    requires
        node.is_hierarchy_of(geometries, extent),
        forall|i: int| 0 <= i < geometries.len() ==> (#[trigger] geometries[i]).bounding_box.is_numeric(),
    ensures
        node.aabb.is_numeric(),
        forall|i: int| 0 <= i < geometries.len() ==> node.aabb.contains((#[trigger] geometries[i]).bounding_box),
{
    lemma_hierarchy_is_consistent(node, geometries, extent);
    lemma_hierarchy_leaves(node, geometries, extent);
    let leaves = node.leaves();
    assert forall|i: int| 0 <= i < leaves.len() implies (#[trigger] leaves[i]).bounding_box.is_numeric() by {
        assert(leaves.contains(leaves[i]));
        assert(geometries.contains(leaves[i]));
    }
    lemma_box_contains_leaves(node);
    assert forall|i: int| 0 <= i < geometries.len() implies node.aabb.contains(
        (#[trigger] geometries[i]).bounding_box,
    ) by {
        assert(geometries.contains(geometries[i]));
        assert(leaves.contains(geometries[i]));
        let j = choose|j: int| 0 <= j < leaves.len() && leaves[j] == geometries[i];
        assert(node.aabb.contains(leaves[j].bounding_box));
    }
}

/// Building is deterministic: where a box has one extent, a list of primitives
/// has one hierarchy.
pub proof fn lemma_hierarchy_is_unique(
    first: BVHNode,
    second: BVHNode,
    geometries: Seq<Geometry>,
    extent: spec_fn(AxisAlignedBoundingBox, Vector3) -> bool,
)
    requires
        first.is_hierarchy_of(geometries, extent),
        second.is_hierarchy_of(geometries, extent),
        forall|b: AxisAlignedBoundingBox, x: Vector3, y: Vector3|
            #[trigger] extent(b, x) && #[trigger] extent(b, y) ==> x == y,
    ensures
        first == second,
    decreases first,
{
    if geometries.len() > 2 {
        let parent = union_of_all(geometries);
        let size = choose|size: Vector3| #[trigger]
            extent(parent, size) && first.is_split_of(geometries, longest_axis_of(size), extent);
        let other = choose|size: Vector3| #[trigger]
            extent(parent, size) && second.is_split_of(geometries, longest_axis_of(size), extent);
        assert(size == other);
        let list = arranged(geometries, longest_axis_of(size));
        let mid = geometries.len() as int / 2;
        match (first.left_child, first.right_child, second.left_child, second.right_child) {
            (Child::Inner(l1), Child::Inner(r1), Child::Inner(l2), Child::Inner(r2)) => {
                lemma_hierarchy_is_unique(*l1, *l2, list.take(mid), extent);
                lemma_hierarchy_is_unique(*r1, *r2, list.skip(mid), extent);
                assert(first.left_child == second.left_child);
                assert(first.right_child == second.right_child);
            },
            _ => {},
        }
    }
}

/// The ray test `hit` has, for every primitive, the one result that `hit_of`
/// gives.
pub open spec fn answers_as(
    hit: spec_fn(Geometry, Option<IntersectionInfo>) -> bool,
    hit_of: spec_fn(Geometry) -> Option<IntersectionInfo>,
) -> bool {
    forall|g: Geometry, found: Option<IntersectionInfo>| #[trigger] hit(g, found) ==> found == hit_of(g)
}

/// The box test never turns away a ray that hits something inside the box:
/// whatever parameters `slab_parameters` has for a box that contains the
/// box of a primitive that the ray hits, the ray passes with them.
pub open spec fn box_test_is_conservative(
    slab_parameters: spec_fn(AxisAlignedBoundingBox, (Vector3, Vector3)) -> bool,
    hit_of: spec_fn(Geometry) -> Option<IntersectionInfo>,
) -> bool {
    forall|b: AxisAlignedBoundingBox, toward: (Vector3, Vector3), g: Geometry|
        #[trigger] slab_parameters(b, toward) && #[trigger] b.contains(g.bounding_box) && hit_of(g).is_some()
            ==> passes_slabs(toward.0, toward.1)
}

/// No hit has a NaN for its ray parameter.
pub open spec fn no_hit_is_nan(hits: Seq<Option<IntersectionInfo>>) -> bool {
    forall|i: int| 0 <= i < hits.len() && (#[trigger] hits[i]).is_some() ==> !is_nan(hits[i].unwrap().t_intersection)
}

/// The closer of a closest hit among `a` and a closest hit among `b` is a
/// closest hit among both.
pub proof fn lemma_closer_of_is_closest(
    left: Option<IntersectionInfo>,
    right: Option<IntersectionInfo>,
    a: Seq<Option<IntersectionInfo>>,
    b: Seq<Option<IntersectionInfo>>,
)
    requires
        is_closest_of(left, a),
        is_closest_of(right, b),
        no_hit_is_nan(a),
        no_hit_is_nan(b),
    ensures
        is_closest_of(crate::accel::bvh_node::closer_of(left, right), a + b),
        no_hit_is_nan(a + b),
{
    let all = a + b;
    let out = crate::accel::bvh_node::closer_of(left, right);
    assert forall|i: int| 0 <= i < all.len() && (#[trigger] all[i]).is_some() implies !is_nan(
        all[i].unwrap().t_intersection,
    ) by {
        if i < a.len() {
            assert(all[i] == a[i]);
        } else {
            assert(all[i] == b[i - a.len()]);
        }
    }
    if left.is_some() {
        let k = choose|k: int| 0 <= k < a.len() && #[trigger] a[k] == left;
        assert(all[k] == left);
    }
    if right.is_some() {
        let k = choose|k: int| 0 <= k < b.len() && #[trigger] b[k] == right;
        assert(all[a.len() + k] == right);
    }
    match out {
        None => {
            assert forall|i: int| 0 <= i < all.len() implies (#[trigger] all[i]).is_none() by {
                if i < a.len() {
                    assert(all[i] == a[i]);
                } else {
                    assert(all[i] == b[i - a.len()]);
                }
            }
        },
        Some(info) => {
            assert forall|i: int| 0 <= i < all.len() && (#[trigger] all[i]).is_some() implies order_key(
                info.t_intersection,
            ) <= order_key(all[i].unwrap().t_intersection) by {
                if i < a.len() {
                    assert(all[i] == a[i]);
                } else {
                    assert(all[i] == b[i - a.len()]);
                }
            }
        },
    }
}

/// A search returns a closest hit among the leaves of the node, where the box
/// test is conservative and every node's box is the union of its children's.
pub proof fn lemma_search_finds_closest(
    node: BVHNode,
    slab_parameters: spec_fn(AxisAlignedBoundingBox, (Vector3, Vector3)) -> bool,
    hit: spec_fn(Geometry, Option<IntersectionInfo>) -> bool,
    hit_of: spec_fn(Geometry) -> Option<IntersectionInfo>,
    out: Option<IntersectionInfo>,
)
    requires
        node.search_yields(slab_parameters, hit, out),
        node.is_consistent(),
        forall|i: int| 0 <= i < node.leaves().len() ==> (#[trigger] node.leaves()[i]).bounding_box.is_numeric(),
        answers_as(hit, hit_of),
        box_test_is_conservative(slab_parameters, hit_of),
        no_hit_is_nan(node.leaves().map_values(hit_of)),
    ensures
        is_closest_of(out, node.leaves().map_values(hit_of)),
    decreases node,
{
    let leaves = node.leaves();
    let hits = leaves.map_values(hit_of);
    let left_leaves = node.left_child.leaves();
    let right_leaves = node.right_child.leaves();
    let a = left_leaves.map_values(hit_of);
    let b = right_leaves.map_values(hit_of);
    assert(leaves == left_leaves + right_leaves);
    assert(hits =~= a + b);
    let toward = choose|toward: (Vector3, Vector3)| #[trigger]
        slab_parameters(node.aabb, toward) && if passes_slabs(toward.0, toward.1) {
            exists|left: Option<IntersectionInfo>, right: Option<IntersectionInfo>|
                {
                    &&& node.left_child.search_yields(slab_parameters, hit, left)
                    &&& node.right_child.search_yields(slab_parameters, hit, right)
                    &&& out == #[trigger] crate::accel::bvh_node::closer_of(left, right)
                }
        } else {
            out.is_none()
        };
    if passes_slabs(toward.0, toward.1) {
        let (left, right) = choose|left: Option<IntersectionInfo>, right: Option<IntersectionInfo>|
            {
                &&& node.left_child.search_yields(slab_parameters, hit, left)
                &&& node.right_child.search_yields(slab_parameters, hit, right)
                &&& out == #[trigger] crate::accel::bvh_node::closer_of(left, right)
            };
        assert forall|i: int| 0 <= i < left_leaves.len() implies (#[trigger] left_leaves[i]).bounding_box.is_numeric() by {
            assert(leaves[i] == left_leaves[i]);
        }
        assert forall|i: int| 0 <= i < right_leaves.len() implies (#[trigger] right_leaves[i]).bounding_box.is_numeric() by {
            assert(leaves[left_leaves.len() + i] == right_leaves[i]);
        }
        assert forall|i: int| 0 <= i < a.len() && (#[trigger] a[i]).is_some() implies !is_nan(
            a[i].unwrap().t_intersection,
        ) by {
            assert(hits[i] == a[i]);
        }
        assert forall|i: int| 0 <= i < b.len() && (#[trigger] b[i]).is_some() implies !is_nan(
            b[i].unwrap().t_intersection,
        ) by {
            assert(hits[a.len() + i] == b[i]);
        }
        lemma_child_search_finds_closest(node.left_child, slab_parameters, hit, hit_of, left);
        lemma_child_search_finds_closest(node.right_child, slab_parameters, hit, hit_of, right);
        lemma_closer_of_is_closest(left, right, a, b);
    } else {
        lemma_box_contains_leaves(node);
        assert forall|i: int| 0 <= i < hits.len() implies (#[trigger] hits[i]).is_none() by {
            if hits[i].is_some() {
                assert(node.aabb.contains(leaves[i].bounding_box));
                assert(hit_of(leaves[i]).is_some());
            }
        }
    }
}

/// The same of a search below a child.
pub proof fn lemma_child_search_finds_closest(
    child: Child,
    slab_parameters: spec_fn(AxisAlignedBoundingBox, (Vector3, Vector3)) -> bool,
    hit: spec_fn(Geometry, Option<IntersectionInfo>) -> bool,
    hit_of: spec_fn(Geometry) -> Option<IntersectionInfo>,
    out: Option<IntersectionInfo>,
)
    requires
        child.search_yields(slab_parameters, hit, out),
        child.is_consistent(),
        forall|i: int| 0 <= i < child.leaves().len() ==> (#[trigger] child.leaves()[i]).bounding_box.is_numeric(),
        answers_as(hit, hit_of),
        box_test_is_conservative(slab_parameters, hit_of),
        no_hit_is_nan(child.leaves().map_values(hit_of)),
    ensures
        is_closest_of(out, child.leaves().map_values(hit_of)),
    decreases child,
{
    match child {
        Child::Leaf(g) => {
            let hits = child.leaves().map_values(hit_of);
            assert(child.leaves() =~= seq![g]);
            assert(hits[0] == hit_of(g));
            assert(out == hit_of(g));
        },
        Child::Inner(node) => {
            assert(child.leaves() == node.leaves());
            lemma_search_finds_closest(*node, slab_parameters, hit, hit_of, out);
        },
    }
}

/// A search of a hierarchy agrees with trying every primitive in turn: where
/// the box test is conservative and every hit has a finite ray parameter, both
/// find a hit or both find none, and the ray parameters of what they find are
/// the same number.
pub proof fn lemma_search_agrees_with_scan(
    node: BVHNode,
    geometries: Seq<Geometry>,
    extent: spec_fn(AxisAlignedBoundingBox, Vector3) -> bool,
    slab_parameters: spec_fn(AxisAlignedBoundingBox, (Vector3, Vector3)) -> bool,
    hit: spec_fn(Geometry, Option<IntersectionInfo>) -> bool,
    hit_of: spec_fn(Geometry) -> Option<IntersectionInfo>,
    out: Option<IntersectionInfo>,
)
    requires
        node.is_hierarchy_of(geometries, extent),
        node.search_yields(slab_parameters, hit, out),
        forall|i: int| 0 <= i < geometries.len() ==> (#[trigger] geometries[i]).bounding_box.is_numeric(),
        answers_as(hit, hit_of),
        box_test_is_conservative(slab_parameters, hit_of),
        all_hits_finite(geometries.map_values(hit_of)),
    ensures
        out.is_some() == closest_in_order(geometries.map_values(hit_of)).is_some(),
        out.is_some() ==> order_key(out.unwrap().t_intersection) == order_key(
            closest_in_order(geometries.map_values(hit_of)).unwrap().t_intersection,
        ),
{
    let leaves = node.leaves();
    let tried = geometries.map_values(hit_of);
    let below = leaves.map_values(hit_of);
    let scan = closest_in_order(tried);
    lemma_hierarchy_is_consistent(node, geometries, extent);
    lemma_hierarchy_leaves(node, geometries, extent);
    assert forall|i: int| 0 <= i < leaves.len() implies (#[trigger] leaves[i]).bounding_box.is_numeric() by {
        assert(leaves.contains(leaves[i]));
        assert(geometries.contains(leaves[i]));
    }
    assert forall|i: int| 0 <= i < below.len() && (#[trigger] below[i]).is_some() implies !is_nan(
        below[i].unwrap().t_intersection,
    ) by {
        assert(leaves.contains(leaves[i]));
        assert(geometries.contains(leaves[i]));
        let j = choose|j: int| 0 <= j < geometries.len() && geometries[j] == leaves[i];
        assert(tried[j] == below[i]);
    }
    lemma_search_finds_closest(node, slab_parameters, hit, hit_of, out);
    lemma_closest_in_order_is_closest(tried);
    if out.is_some() {
        let k = choose|k: int| 0 <= k < below.len() && #[trigger] below[k] == out;
        assert(leaves.contains(leaves[k]));
        assert(geometries.contains(leaves[k]));
        let j = choose|j: int| 0 <= j < geometries.len() && geometries[j] == leaves[k];
        assert(tried[j] == out);
    }
    if scan.is_some() {
        let k = choose|k: int| 0 <= k < tried.len() && #[trigger] tried[k] == scan;
        assert(geometries.contains(geometries[k]));
        assert(leaves.contains(geometries[k]));
        let j = choose|j: int| 0 <= j < leaves.len() && leaves[j] == geometries[k];
        assert(below[j] == scan);
    }
}

} // verus!
