//! Axis-aligned bounding boxes.

use vstd::prelude::*;
use crate::common::IntersectionInfo;
use crate::utilities::mathutils::{
    fp_gt, fp_le, fp_max, fp_min, less, less_eq, lemma_maximum_associative,
    lemma_maximum_of_numbers, lemma_minimum_associative, lemma_minimum_of_numbers, maximum,
    minimum, order_key, Point3, Vector3, NEG_INFINITY, POS_INFINITY, ZERO,
};

verus! {

/// A box given by the two ends of its diagonal.
#[derive(Debug, Clone, Copy, PartialEq, Eq, Structural)]
pub struct AxisAlignedBoundingBox {
    pub min: Point3,
    pub max: Point3,
}

/// A primitive as the hierarchy holds it: its number in the scene's list of
/// primitives, by which it is found again, and the box around it.
#[derive(Debug, Clone, Copy, PartialEq, Eq, Structural)]
pub struct Geometry {
    pub id: usize,
    pub bounding_box: AxisAlignedBoundingBox,
}

/// What can show an axis-aligned box around itself.
pub trait Boundable {
    /// The box around the object.
    spec fn bounds(&self) -> AxisAlignedBoundingBox;

    fn get_bounding_box(&self) -> (r: AxisAlignedBoundingBox)
        ensures
            r == self.bounds(),
    ;
}

/// The smallest box around two boxes: the lesser of the two minima and the
/// greater of the two maxima on every axis.
pub open spec fn union_of(a: AxisAlignedBoundingBox, b: AxisAlignedBoundingBox) -> AxisAlignedBoundingBox {
    AxisAlignedBoundingBox {
        min: Vector3 {
            x: minimum(a.min.x, b.min.x),
            y: minimum(a.min.y, b.min.y),
            z: minimum(a.min.z, b.min.z),
        },
        max: Vector3 {
            x: maximum(a.max.x, b.max.x),
            y: maximum(a.max.y, b.max.y),
            z: maximum(a.max.z, b.max.z),
        },
    }
}

/// The box around a list of primitives, taken from the first one on.
pub open spec fn union_of_all(primitives: Seq<Geometry>) -> AxisAlignedBoundingBox
    decreases primitives.len(),
{
    if primitives.len() == 0 {
        AxisAlignedBoundingBox::empty()
    } else if primitives.len() == 1 {
        primitives[0].bounding_box
    } else {
        union_of(primitives.last().bounding_box, union_of_all(primitives.drop_last()))
    }
}

/// The interval of ray parameters that is left after one more axis: the old
/// interval cut down to the slab between `t_1` and `t_2`, with each new end
/// held inside the old interval so that a NaN cannot take an end over.
pub open spec fn clip_to_slab(interval: (u64, u64), t_1: u64, t_2: u64) -> (u64, u64) {
    let t_min = maximum(interval.0, minimum(minimum(t_1, t_2), interval.1));
    let t_max = minimum(interval.1, maximum(maximum(t_1, t_2), t_min));
    (t_min, t_max)
}

/// The interval of ray parameters left after the three slabs, x first.
/// `toward_min` holds, per axis, the parameter at which the ray meets the plane
/// of the box's minimum, `toward_max` that of its maximum.
pub open spec fn slab_interval(toward_min: Vector3, toward_max: Vector3) -> (u64, u64) {
    let first = (minimum(toward_min.x, toward_max.x), maximum(toward_min.x, toward_max.x));
    let second = clip_to_slab(first, toward_min.y, toward_max.y);
    clip_to_slab(second, toward_min.z, toward_max.z)
}

/// Whether the ray passes the box: the interval's upper end is at least its
/// lower end and at least zero.
pub open spec fn passes_slabs(toward_min: Vector3, toward_max: Vector3) -> bool {
    let interval = slab_interval(toward_min, toward_max);
    less_eq(maximum(interval.0, ZERO), interval.1)
}

/// The axis of the largest of three extents, the earliest such axis.
pub open spec fn longest_axis_of(extent: Vector3) -> int {
    if less(extent.x, extent.y) {
        if less(extent.y, extent.z) {
            2
        } else {
            1
        }
    } else if less(extent.x, extent.z) {
        2
    } else {
        0
    }
}

impl AxisAlignedBoundingBox {
    /// The box that leaves every other box unchanged in a union: its minimum
    /// is positive infinity and its maximum negative infinity on each axis.
    pub open spec fn empty() -> AxisAlignedBoundingBox {
        AxisAlignedBoundingBox {
            min: Vector3 { x: POS_INFINITY, y: POS_INFINITY, z: POS_INFINITY },
            max: Vector3 { x: NEG_INFINITY, y: NEG_INFINITY, z: NEG_INFINITY },
        }
    }

    /// No coordinate is a NaN.
    pub open spec fn is_numeric(self) -> bool {
        self.min.is_numeric() && self.max.is_numeric()
    }

    /// `inner` lies inside `self` on every axis.
    pub open spec fn contains(self, inner: AxisAlignedBoundingBox) -> bool {
        &&& order_key(self.min.x) <= order_key(inner.min.x)
        &&& order_key(self.min.y) <= order_key(inner.min.y)
        &&& order_key(self.min.z) <= order_key(inner.min.z)
        &&& order_key(inner.max.x) <= order_key(self.max.x)
        &&& order_key(inner.max.y) <= order_key(self.max.y)
        &&& order_key(inner.max.z) <= order_key(self.max.z)
    }

    pub fn new_aabb(_min: Point3, _max: Point3) -> (r: AxisAlignedBoundingBox)
        ensures
            r == (AxisAlignedBoundingBox { min: _min, max: _max }),
    {
        AxisAlignedBoundingBox { min: _min, max: _max }
    }

    /// The axis along which a box is longest, from its extent `max - min`:
    /// 0, 1 or 2 for x, y or z. An axis wins over an earlier one only with a
    /// strictly larger extent.
    pub fn longest_axis(extent: Vector3) -> (r: i32)
        ensures
            r == longest_axis_of(extent),
            0 <= r < 3,
            extent.is_numeric() ==> forall|axis: int|
                0 <= axis < 3 ==> {
                    &&& order_key(#[trigger] extent.component(axis)) <= order_key(extent.component(r as int))
                    &&& order_key(extent.component(axis)) == order_key(extent.component(r as int)) ==> r <= axis
                },
    {
        if fp_gt(extent.y, extent.x) {
            if fp_gt(extent.z, extent.y) {
                2
            } else {
                1
            }
        } else if fp_gt(extent.z, extent.x) {
            2
        } else {
            0
        }
    }

    /// The box test of a traversal, from the ray parameters at which the ray
    /// meets the six planes of the box. The result is the box-only record
    /// where the ray passes the box, and nothing where it does not.
    pub fn intersect_slabs(toward_min: Vector3, toward_max: Vector3) -> (r: Option<IntersectionInfo>)
        ensures
            r.is_some() == passes_slabs(toward_min, toward_max),
            r.is_some() ==> r.unwrap() == IntersectionInfo::gate(),
    {
        let mut t_min: u64 = fp_min(toward_min.x, toward_max.x);
        let mut t_max: u64 = fp_max(toward_min.x, toward_max.x);

        t_min = fp_max(t_min, fp_min(fp_min(toward_min.y, toward_max.y), t_max));
        t_max = fp_min(t_max, fp_max(fp_max(toward_min.y, toward_max.y), t_min));

        t_min = fp_max(t_min, fp_min(fp_min(toward_min.z, toward_max.z), t_max));
        t_max = fp_min(t_max, fp_max(fp_max(toward_min.z, toward_max.z), t_min));

        if fp_le(fp_max(t_min, ZERO), t_max) {
            Some(
                IntersectionInfo {
                    t_intersection: ZERO,
                    point_of_intersection: Vector3::from(ZERO),
                    normal: Vector3::from(ZERO),
                    is_aabb: true,
                },
            )
        } else {
            None
        }
    }
}

impl Default for AxisAlignedBoundingBox {
    fn default() -> (r: Self)
        ensures
            r == AxisAlignedBoundingBox::empty(),
    {
        AxisAlignedBoundingBox { min: Vector3::from(POS_INFINITY), max: Vector3::from(NEG_INFINITY) }
    }
}

impl Boundable for Geometry {
    open spec fn bounds(&self) -> AxisAlignedBoundingBox {
        self.bounding_box
    }

    fn get_bounding_box(&self) -> (r: AxisAlignedBoundingBox) {
        self.bounding_box
    }
}

impl Boundable for AxisAlignedBoundingBox {
    open spec fn bounds(&self) -> AxisAlignedBoundingBox {
        *self
    }

    fn get_bounding_box(&self) -> (r: AxisAlignedBoundingBox) {
        *self
    }
}

/// The smallest box around two boxes.
pub fn surrounding_box(a: &AxisAlignedBoundingBox, b: &AxisAlignedBoundingBox) -> (r: AxisAlignedBoundingBox)
    ensures
        r == union_of(*a, *b),
{
    let small: Vector3 = Vector3::new(
        fp_min(a.min.x, b.min.x),
        fp_min(a.min.y, b.min.y),
        fp_min(a.min.z, b.min.z),
    );

    let big: Vector3 = Vector3::new(
        fp_max(a.max.x, b.max.x),
        fp_max(a.max.y, b.max.y),
        fp_max(a.max.z, b.max.z),
    );

    AxisAlignedBoundingBox { min: small, max: big }
}

/// The smallest box around all primitives of a list that is not empty.
pub fn surrounding_box_primitives(primitives_vector: &Vec<Geometry>) -> (r: AxisAlignedBoundingBox)
    requires
        primitives_vector.len() > 0,
    ensures
        r == union_of_all(primitives_vector@),
{
    let mut ret_aabb: AxisAlignedBoundingBox = primitives_vector[0].get_bounding_box();
    let mut i: usize = 1;
    while i < primitives_vector.len()
        invariant
            1 <= i <= primitives_vector.len(),
            ret_aabb == union_of_all(primitives_vector@.take(i as int)),
        decreases primitives_vector.len() - i,
    {
        let bounding_box_primitive: AxisAlignedBoundingBox = primitives_vector[i].get_bounding_box();
        ret_aabb = surrounding_box(&bounding_box_primitive, &ret_aabb);
        proof {
            let next = primitives_vector@.take(i + 1);
            assert(next.drop_last() =~= primitives_vector@.take(i as int));
            assert(next.last() == primitives_vector@[i as int]);
        }
        i = i + 1;
    }
    proof {
        assert(primitives_vector@.take(i as int) =~= primitives_vector@);
    }
    ret_aabb
}

/// A union with the empty box changes nothing, on either side.
pub proof fn lemma_union_with_empty(a: AxisAlignedBoundingBox)
    requires
        a.is_numeric(),
    ensures
        union_of(a, AxisAlignedBoundingBox::empty()) == a,
        union_of(AxisAlignedBoundingBox::empty(), a) == a,
{
}

/// The union of two boxes does not depend on their order.
pub proof fn lemma_union_commutative(a: AxisAlignedBoundingBox, b: AxisAlignedBoundingBox)
    requires
        a.is_numeric(),
        b.is_numeric(),
    ensures
        union_of(a, b) == union_of(b, a),
{
    lemma_minimum_of_numbers(a.min.x, b.min.x);
    lemma_minimum_of_numbers(a.min.y, b.min.y);
    lemma_minimum_of_numbers(a.min.z, b.min.z);
    lemma_maximum_of_numbers(a.max.x, b.max.x);
    lemma_maximum_of_numbers(a.max.y, b.max.y);
    lemma_maximum_of_numbers(a.max.z, b.max.z);
}

/// Unions of three boxes may be taken in any grouping.
pub proof fn lemma_union_associative(
    a: AxisAlignedBoundingBox,
    b: AxisAlignedBoundingBox,
    c: AxisAlignedBoundingBox,
)
    requires
        a.is_numeric(),
        b.is_numeric(),
        c.is_numeric(),
    ensures
        union_of(union_of(a, b), c) == union_of(a, union_of(b, c)),
{
    lemma_minimum_associative(a.min.x, b.min.x, c.min.x);
    lemma_minimum_associative(a.min.y, b.min.y, c.min.y);
    lemma_minimum_associative(a.min.z, b.min.z, c.min.z);
    lemma_maximum_associative(a.max.x, b.max.x, c.max.x);
    lemma_maximum_associative(a.max.y, b.max.y, c.max.y);
    lemma_maximum_associative(a.max.z, b.max.z, c.max.z);
}

/// The union of two boxes without NaN has none, and contains both.
pub proof fn lemma_union_contains(a: AxisAlignedBoundingBox, b: AxisAlignedBoundingBox)
    requires
        a.is_numeric(),
        b.is_numeric(),
    ensures
        union_of(a, b).is_numeric(),
        union_of(a, b).contains(a),
        union_of(a, b).contains(b),
{
}

/// A ray that does not approach the box along any axis (on each axis the
/// nearer plane lies behind its origin) and whose origin is outside the box
/// (on some axis both planes lie behind it) does not pass the box.
pub proof fn lemma_receding_ray_misses(toward_min: Vector3, toward_max: Vector3)
    requires
        toward_min.is_numeric(),
        toward_max.is_numeric(),
        order_key(minimum(toward_min.x, toward_max.x)) < 0,
        order_key(minimum(toward_min.y, toward_max.y)) < 0,
        order_key(minimum(toward_min.z, toward_max.z)) < 0,
        order_key(maximum(toward_min.x, toward_max.x)) < 0
            || order_key(maximum(toward_min.y, toward_max.y)) < 0
            || order_key(maximum(toward_min.z, toward_max.z)) < 0,
    ensures
        !passes_slabs(toward_min, toward_max),
{
}

/// The box test never turns away a ray that is inside all three slabs at one
/// parameter that is not negative: where such a parameter `t` exists, given by
/// its order key, the ray passes.
pub proof fn lemma_slab_test_keeps_hits(toward_min: Vector3, toward_max: Vector3, t: int)
    requires
        toward_min.is_numeric(),
        toward_max.is_numeric(),
        0 <= t,
        order_key(minimum(toward_min.x, toward_max.x)) <= t <= order_key(maximum(toward_min.x, toward_max.x)),
        order_key(minimum(toward_min.y, toward_max.y)) <= t <= order_key(maximum(toward_min.y, toward_max.y)),
        order_key(minimum(toward_min.z, toward_max.z)) <= t <= order_key(maximum(toward_min.z, toward_max.z)),
    ensures
        passes_slabs(toward_min, toward_max),
{
}

} // verus!
