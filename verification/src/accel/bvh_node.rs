//! The bounding volume hierarchy: how it is built and how it is searched.

use vstd::prelude::*;
use crate::accel::aabb::{
    longest_axis_of, passes_slabs, surrounding_box, surrounding_box_primitives, union_of, union_of_all,
    AxisAlignedBoundingBox, Boundable, Geometry,
};
use crate::accel::sorting::{copy_range, sort_along, sorted_along};
use crate::common::IntersectionInfo;
use crate::utilities::mathutils::{fp_lt, less, Vector3};

verus! {

/// What hangs below a node: one primitive, or another node.
#[derive(Debug, PartialEq, Eq)]
pub enum Child {
    Leaf(Geometry),
    Inner(Box<BVHNode>),
}

/// A node of the hierarchy: two children and the box around both.
#[derive(Debug, PartialEq, Eq)]
pub struct BVHNode {
    pub aabb: AxisAlignedBoundingBox,
    pub left_child: Child,
    pub right_child: Child,
}

/// An axis along which a list of primitives is split.
#[derive(Debug, Clone, Copy, PartialEq, Eq, Structural)]
pub enum SplitAxis {
    XAxis,
    YAxis,
    ZAxis,
}

impl SplitAxis {
    /// The number of the axis: 0, 1 or 2.
    pub open spec fn index_of(self) -> int {
        match self {
            SplitAxis::XAxis => 0,
            SplitAxis::YAxis => 1,
            SplitAxis::ZAxis => 2,
        }
    }

    pub fn index(self) -> (r: i32)
        ensures
            r == self.index_of(),
    {
        match self {
            SplitAxis::XAxis => 0,
            SplitAxis::YAxis => 1,
            SplitAxis::ZAxis => 2,
        }
    }

    /// The axis with the given number, if it is 0, 1 or 2.
    pub fn from_index(axis: i32) -> (r: Option<SplitAxis>)
        ensures
            r.is_some() == (0 <= axis < 3),
            r.is_some() ==> r.unwrap().index_of() == axis,
    {
        if axis == 0 {
            Some(SplitAxis::XAxis)
        } else if axis == 1 {
            Some(SplitAxis::YAxis)
        } else if axis == 2 {
            Some(SplitAxis::ZAxis)
        } else {
            None
        }
    }
}

/// What the caller's subtraction can answer: the pairs of a box and an extent
/// that `extent` can return for the box.
pub open spec fn extents_of<F: Fn(AxisAlignedBoundingBox) -> Vector3>(extent: F) -> spec_fn(
    AxisAlignedBoundingBox,
    Vector3,
) -> bool {
    |b: AxisAlignedBoundingBox, size: Vector3| call_ensures(extent, (b,), size)
}

/// What a box test can be given: the pairs of a box and the ray parameters that
/// `slab_parameters` can return for it.
pub open spec fn parameters_of<S: Fn(AxisAlignedBoundingBox) -> (Vector3, Vector3)>(slab_parameters: S) -> spec_fn(
    AxisAlignedBoundingBox,
    (Vector3, Vector3),
) -> bool {
    |b: AxisAlignedBoundingBox, toward: (Vector3, Vector3)| call_ensures(slab_parameters, (b,), toward)
}

/// What a ray test can find: the pairs of a primitive and a result that `hit`
/// can return for it.
pub open spec fn results_of<H: Fn(Geometry) -> Option<IntersectionInfo>>(hit: H) -> spec_fn(
    Geometry,
    Option<IntersectionInfo>,
) -> bool {
    |g: Geometry, found: Option<IntersectionInfo>| call_ensures(hit, (g,), found)
}

/// The list as it is split: sorted along the axis with the number `axis`, and
/// left as it is where that is no axis.
pub open spec fn arranged(geometries: Seq<Geometry>, axis: int) -> Seq<Geometry> {
    if 0 <= axis < 3 {
        sorted_along(geometries, axis)
    } else {
        geometries
    }
}

/// Of two results the one with the strictly smaller ray parameter, `right`
/// where neither is smaller, and the only one where one side missed.
pub open spec fn closer_of(left: Option<IntersectionInfo>, right: Option<IntersectionInfo>) -> Option<
    IntersectionInfo,
> {
    match (left, right) {
        (None, None) => None,
        (Some(l), None) => Some(l),
        (None, Some(r)) => Some(r),
        (Some(l), Some(r)) => if less(l.t_intersection, r.t_intersection) {
            Some(l)
        } else {
            Some(r)
        },
    }
}

impl Child {
    /// The box around what hangs here.
    pub open spec fn bounds_of(self) -> AxisAlignedBoundingBox {
        match self {
            Child::Leaf(g) => g.bounding_box,
            Child::Inner(node) => node.aabb,
        }
    }

    /// The primitives below this child, from left to right.
    pub open spec fn leaves(self) -> Seq<Geometry>
        decreases self,
    {
        match self {
            Child::Leaf(g) => seq![g],
            Child::Inner(node) => node.leaves(),
        }
    }

    /// Every box below is the union of the boxes of its node's children.
    pub open spec fn is_consistent(self) -> bool
        decreases self,
    {
        match self {
            Child::Leaf(g) => true,
            Child::Inner(node) => node.is_consistent(),
        }
    }

    /// Whether a search below this child can end with `out`: for a primitive,
    /// a result that the ray test `hit` has for it; for a node, what the search
    /// of the node yields.
    pub open spec fn search_yields(
        self,
        slab_parameters: spec_fn(AxisAlignedBoundingBox, (Vector3, Vector3)) -> bool,
        hit: spec_fn(Geometry, Option<IntersectionInfo>) -> bool,
        out: Option<IntersectionInfo>,
    ) -> bool
        decreases self,
    {
        match self {
            Child::Leaf(g) => hit(g, out),
            Child::Inner(node) => node.search_yields(slab_parameters, hit, out),
        }
    }

    /// The closest hit below this child.
    pub fn check_intersection_and_return_closest_hit<S, H>(&self, slab_parameters: &S, hit: &H) -> (out: Option<
        IntersectionInfo,
    >)
        where
            S: Fn(AxisAlignedBoundingBox) -> (Vector3, Vector3),
            H: Fn(Geometry) -> Option<IntersectionInfo>,
        requires
            forall|b: AxisAlignedBoundingBox| call_requires(*slab_parameters, (b,)),
            forall|g: Geometry| call_requires(*hit, (g,)),
        ensures
            self.search_yields(parameters_of(*slab_parameters), results_of(*hit), out),
        decreases self,
    {
        match self {
            Child::Leaf(g) => hit(*g),
            Child::Inner(node) => node.check_intersection_and_return_closest_hit(slab_parameters, hit),
        }
    }
}

impl BVHNode {
    /// Whether `self` is the hierarchy over `geometries`, where `extent` holds
    /// the pairs of a box and its extent, `max - min`.
    ///
    /// One primitive gives a node with that primitive on both sides and its
    /// box. Two give a node with one on each side and the union of their
    /// boxes. More are sorted along the longest axis of the box around all of
    /// them, and cut at the middle (the left part is the shorter one where the
    /// count is odd); the two parts give the two child nodes, and the node's
    /// box is the union of theirs.
    pub open spec fn is_hierarchy_of(
        self,
        geometries: Seq<Geometry>,
        extent: spec_fn(AxisAlignedBoundingBox, Vector3) -> bool,
    ) -> bool
        decreases self,
    {
        if geometries.len() == 1 {
            &&& self.aabb == geometries[0].bounding_box
            &&& self.left_child == Child::Leaf(geometries[0])
            &&& self.right_child == Child::Leaf(geometries[0])
        } else if geometries.len() == 2 {
            &&& self.aabb == union_of(geometries[0].bounding_box, geometries[1].bounding_box)
            &&& self.left_child == Child::Leaf(geometries[0])
            &&& self.right_child == Child::Leaf(geometries[1])
        } else if geometries.len() > 2 {
            exists|size: Vector3| #[trigger]
                extent(union_of_all(geometries), size) && self.is_split_of(geometries, longest_axis_of(size), extent)
        } else {
            false
        }
    }

    /// Whether `self` splits `geometries` along `axis` into two hierarchies.
    pub open spec fn is_split_of(
        self,
        geometries: Seq<Geometry>,
        axis: int,
        extent: spec_fn(AxisAlignedBoundingBox, Vector3) -> bool,
    ) -> bool
        decreases self, 0int,
    {
        let list = arranged(geometries, axis);
        let mid = geometries.len() as int / 2;
        match (self.left_child, self.right_child) {
            (Child::Inner(left), Child::Inner(right)) => {
                &&& left.is_hierarchy_of(list.take(mid), extent)
                &&& right.is_hierarchy_of(list.skip(mid), extent)
                &&& self.aabb == union_of(left.aabb, right.aabb)
            },
            _ => false,
        }
    }

    /// The primitives below this node, from left to right.
    pub open spec fn leaves(self) -> Seq<Geometry>
        decreases self,
    {
        self.left_child.leaves() + self.right_child.leaves()
    }

    /// The node's box is the union of its children's boxes, and so it is in
    /// every node below.
    pub open spec fn is_consistent(self) -> bool
        decreases self,
    {
        &&& self.aabb == union_of(self.left_child.bounds_of(), self.right_child.bounds_of())
        &&& self.left_child.is_consistent()
        &&& self.right_child.is_consistent()
    }

    /// Whether a search of this node can end with `out`.
    ///
    /// The ray is first tested against the node's box, with parameters that
    /// `slab_parameters` has for it. Where it does not pass, the
    /// search yields nothing. Where it passes, both children are searched, and
    /// the closer of their two results is the node's.
    pub open spec fn search_yields(
        self,
        slab_parameters: spec_fn(AxisAlignedBoundingBox, (Vector3, Vector3)) -> bool,
        hit: spec_fn(Geometry, Option<IntersectionInfo>) -> bool,
        out: Option<IntersectionInfo>,
    ) -> bool
        decreases self,
    {
        exists|toward: (Vector3, Vector3)| #[trigger]
            slab_parameters(self.aabb, toward) && if passes_slabs(toward.0, toward.1) {
                exists|left: Option<IntersectionInfo>, right: Option<IntersectionInfo>|
                    {
                        &&& self.left_child.search_yields(slab_parameters, hit, left)
                        &&& self.right_child.search_yields(slab_parameters, hit, right)
                        &&& out == #[trigger] closer_of(left, right)
                    }
            } else {
                out.is_none()
            }
    }

    /// The closest hit of a ray in the hierarchy below this node. The ray
    /// itself stays with the caller: `slab_parameters` returns, for a box, the
    /// ray parameters at its six planes (those of the minimum corner first),
    /// and `hit` the result of the ray test of one primitive.
    pub fn check_intersection_and_return_closest_hit<S, H>(&self, slab_parameters: &S, hit: &H) -> (out: Option<
        IntersectionInfo,
    >)
        where
            S: Fn(AxisAlignedBoundingBox) -> (Vector3, Vector3),
            H: Fn(Geometry) -> Option<IntersectionInfo>,
        requires
            forall|b: AxisAlignedBoundingBox| call_requires(*slab_parameters, (b,)),
            forall|g: Geometry| call_requires(*hit, (g,)),
        ensures
            self.search_yields(parameters_of(*slab_parameters), results_of(*hit), out),
        decreases self,
    {
        let toward: (Vector3, Vector3) = slab_parameters(self.aabb);
        let intersection_info_option: Option<IntersectionInfo> = AxisAlignedBoundingBox::intersect_slabs(
            toward.0,
            toward.1,
        );
        match intersection_info_option {
            None => {
                proof {
                    assert(parameters_of(*slab_parameters)(self.aabb, toward));
                    assert(!passes_slabs(toward.0, toward.1));
                }
                None
            },
            Some(_) => {
                let hit_left_subtree: Option<IntersectionInfo> =
                    self.left_child.check_intersection_and_return_closest_hit(slab_parameters, hit);
                let hit_right_subtree: Option<IntersectionInfo> =
                    self.right_child.check_intersection_and_return_closest_hit(slab_parameters, hit);
                let out: Option<IntersectionInfo> = match (hit_left_subtree, hit_right_subtree) {
                    (None, None) => None,
                    (Some(left_subtree_intersection_info), None) => Some(left_subtree_intersection_info),
                    (None, Some(right_subtree_intersection_info)) => Some(right_subtree_intersection_info),
                    (Some(left_subtree_intersection_info), Some(right_subtree_intersection_info)) => {
                        if fp_lt(
                            left_subtree_intersection_info.t_intersection,
                            right_subtree_intersection_info.t_intersection,
                        ) {
                            Some(left_subtree_intersection_info)
                        } else {
                            Some(right_subtree_intersection_info)
                        }
                    },
                };
                proof {
                    assert(parameters_of(*slab_parameters)(self.aabb, toward));
                    assert(out == closer_of(hit_left_subtree, hit_right_subtree));
                }
                out
            },
        }
    }

    fn new(aabb: AxisAlignedBoundingBox, left_child: Child, right_child: Child) -> (r: BVHNode)
        ensures
            r.aabb == aabb,
            r.left_child == left_child,
            r.right_child == right_child,
    {
        BVHNode { aabb, left_child, right_child }
    }

    /// Builds the hierarchy over a list of primitives that is not empty. A
    /// list of more than two primitives is split along the longest axis of the
    /// box around it; `extent` is asked for the extent of that box, its maximum
    /// less its minimum.
    pub fn construct_bvh<F: Fn(AxisAlignedBoundingBox) -> Vector3>(geometries: Vec<Geometry>, extent: &F) -> (node:
        BVHNode)
        requires
            geometries.len() > 0,
            forall|b: AxisAlignedBoundingBox| call_requires(*extent, (b,)),
        ensures
            node.is_hierarchy_of(geometries@, extents_of(*extent)),
        decreases geometries.len(),
    {
        let size_current_hitable_list: usize = geometries.len();
        if size_current_hitable_list == 1 {
            let only_node: Geometry = geometries[0];
            let aabb: AxisAlignedBoundingBox = only_node.get_bounding_box();
            BVHNode::new(aabb, Child::Leaf(only_node), Child::Leaf(only_node))
        } else if size_current_hitable_list == 2 {
            let left: Geometry = geometries[0];
            let right: Geometry = geometries[1];
            let aabb: AxisAlignedBoundingBox = surrounding_box(&left.get_bounding_box(), &right.get_bounding_box());
            BVHNode::new(aabb, Child::Leaf(left), Child::Leaf(right))
        } else {
            let ghost given = geometries@;
            let parent_box: AxisAlignedBoundingBox = surrounding_box_primitives(&geometries);
            let size: Vector3 = extent(parent_box);
            let longest_axis: i32 = AxisAlignedBoundingBox::longest_axis(size);
            let list: Vec<Geometry> = match SplitAxis::from_index(longest_axis) {
                Some(axis) => sort_along(geometries, axis.index()),
                None => geometries,
            };
            proof {
                crate::accel::sorting::lemma_sorted_is_permutation(given, longest_axis as int);
                assert(list@ == arranged(given, longest_axis as int));
            }
            let mid: usize = size_current_hitable_list / 2;
            let split_middle_left_list: Vec<Geometry> = copy_range(&list, 0, mid);
            let split_middle_right_list: Vec<Geometry> = copy_range(&list, mid, size_current_hitable_list);
            proof {
                assert(list@.take(mid as int) =~= list@.subrange(0, mid as int));
                assert(list@.skip(mid as int) =~= list@.subrange(mid as int, size_current_hitable_list as int));
            }
            let split_middle_left_tree: BVHNode = BVHNode::construct_bvh(split_middle_left_list, extent);
            let split_middle_right_tree: BVHNode = BVHNode::construct_bvh(split_middle_right_list, extent);
            let aabb_current_box: AxisAlignedBoundingBox = surrounding_box(
                &split_middle_left_tree.get_bounding_box(),
                &split_middle_right_tree.get_bounding_box(),
            );
            let node = BVHNode {
                aabb: aabb_current_box,
                left_child: Child::Inner(Box::new(split_middle_left_tree)),
                right_child: Child::Inner(Box::new(split_middle_right_tree)),
            };
            proof {
                assert(extents_of(*extent)(union_of_all(given), size));
                assert(node.is_split_of(given, longest_axis_of(size), extents_of(*extent)));
            }
            node
        }
    }
}

impl Boundable for BVHNode {
    open spec fn bounds(&self) -> AxisAlignedBoundingBox {
        self.aabb
    }

    fn get_bounding_box(&self) -> (r: AxisAlignedBoundingBox) {
        self.aabb
    }
}

} // verus!
