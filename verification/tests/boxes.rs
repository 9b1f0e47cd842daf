use sayo_pbr_rs::accel::aabb::{
    surrounding_box, surrounding_box_primitives, AxisAlignedBoundingBox, Boundable, Geometry,
};
use sayo_pbr_rs::common::IntersectionInfo;
use sayo_pbr_rs::utilities::mathutils::Vector3;

fn v3(x: f64, y: f64, z: f64) -> Vector3 {
    Vector3::new(x.to_bits(), y.to_bits(), z.to_bits())
}

fn aabb(min: [f64; 3], max: [f64; 3]) -> AxisAlignedBoundingBox {
    AxisAlignedBoundingBox::new_aabb(v3(min[0], min[1], min[2]), v3(max[0], max[1], max[2]))
}

/// The ray parameters at the six planes of a box, as the slab test wants them.
fn slabs(b: &AxisAlignedBoundingBox, o: [f64; 3], d: [f64; 3]) -> (Vector3, Vector3) {
    let min = [f64::from_bits(b.min.x), f64::from_bits(b.min.y), f64::from_bits(b.min.z)];
    let max = [f64::from_bits(b.max.x), f64::from_bits(b.max.y), f64::from_bits(b.max.z)];
    let mut near = [0.0f64; 3];
    let mut far = [0.0f64; 3];
    for a in 0..3 {
        let inv = 1.0 / d[a];
        near[a] = (min[a] - o[a]) * inv;
        far[a] = (max[a] - o[a]) * inv;
    }
    (v3(near[0], near[1], near[2]), v3(far[0], far[1], far[2]))
}

fn passes(b: &AxisAlignedBoundingBox, o: [f64; 3], d: [f64; 3]) -> bool {
    let (near, far) = slabs(b, o, d);
    AxisAlignedBoundingBox::intersect_slabs(near, far).is_some()
}

fn unit_cube() -> AxisAlignedBoundingBox {
    aabb([-1.0, -1.0, -1.0], [1.0, 1.0, 1.0])
}

#[test]
fn default_box_is_empty() {
    let e = AxisAlignedBoundingBox::default();
    assert_eq!(e.min, v3(f64::INFINITY, f64::INFINITY, f64::INFINITY));
    assert_eq!(e.max, v3(f64::NEG_INFINITY, f64::NEG_INFINITY, f64::NEG_INFINITY));
}

#[test]
fn union_with_empty_changes_nothing() {
    let e = AxisAlignedBoundingBox::default();
    for a in [
        unit_cube(),
        aabb([0.0, -0.0, 5.0], [0.0, 7.0, 5.0]),
        aabb([f64::MIN, -1e300, f64::NEG_INFINITY], [f64::MAX, 1e300, f64::INFINITY]),
    ] {
        assert_eq!(surrounding_box(&a, &e), a);
        assert_eq!(surrounding_box(&e, &a), a);
    }
}

#[test]
fn union_takes_least_minimum_and_greatest_maximum() {
    let a = aabb([0.0, 0.0, 0.0], [1.0, 1.0, 1.0]);
    let b = aabb([-2.0, 0.5, 0.25], [0.5, 3.0, 0.75]);
    assert_eq!(surrounding_box(&a, &b), aabb([-2.0, 0.0, 0.0], [1.0, 3.0, 1.0]));
}

#[test]
fn union_is_commutative_and_associative() {
    let a = aabb([0.0, 0.0, 0.0], [1.0, 1.0, 1.0]);
    let b = aabb([-2.0, 0.5, -0.0], [0.5, 3.0, 0.75]);
    let c = aabb([4.0, -9.0, 0.0], [5.0, -8.0, -0.0]);
    assert_eq!(surrounding_box(&a, &b), surrounding_box(&b, &a));
    assert_eq!(
        surrounding_box(&surrounding_box(&a, &b), &c),
        surrounding_box(&a, &surrounding_box(&b, &c))
    );
}

#[test]
fn box_around_a_list() {
    let list = vec![
        Geometry { id: 0, bounding_box: aabb([0.0, 0.0, 0.0], [1.0, 1.0, 1.0]) },
        Geometry { id: 1, bounding_box: aabb([-3.0, 2.0, 0.5], [-2.0, 4.0, 0.6]) },
        Geometry { id: 2, bounding_box: aabb([0.5, 0.5, -7.0], [0.6, 0.6, 9.0]) },
    ];
    assert_eq!(surrounding_box_primitives(&list), aabb([-3.0, 0.0, -7.0], [1.0, 4.0, 9.0]));
    assert_eq!(list[1].get_bounding_box(), list[1].bounding_box);
    assert_eq!(unit_cube().get_bounding_box(), unit_cube());
    let single = vec![list[1]];
    assert_eq!(surrounding_box_primitives(&single), list[1].bounding_box);
}

#[test]
fn longest_axis_of_extents() {
    assert_eq!(AxisAlignedBoundingBox::longest_axis(v3(3.0, 2.0, 1.0)), 0);
    assert_eq!(AxisAlignedBoundingBox::longest_axis(v3(1.0, 3.0, 2.0)), 1);
    assert_eq!(AxisAlignedBoundingBox::longest_axis(v3(1.0, 2.0, 3.0)), 2);
    assert_eq!(AxisAlignedBoundingBox::longest_axis(v3(2.0, 1.0, 3.0)), 2);
}

#[test]
fn longest_axis_prefers_the_earlier_axis_on_ties() {
    assert_eq!(AxisAlignedBoundingBox::longest_axis(v3(1.0, 1.0, 1.0)), 0);
    assert_eq!(AxisAlignedBoundingBox::longest_axis(v3(2.0, 2.0, 1.0)), 0);
    assert_eq!(AxisAlignedBoundingBox::longest_axis(v3(2.0, 1.0, 2.0)), 0);
    assert_eq!(AxisAlignedBoundingBox::longest_axis(v3(1.0, 2.0, 2.0)), 1);
    assert_eq!(AxisAlignedBoundingBox::longest_axis(v3(0.0, -0.0, 0.0)), 0);
}

#[test]
fn ray_along_z_through_the_centre_passes() {
    let hit = {
        let (near, far) = slabs(&unit_cube(), [0.0, 0.0, -5.0], [0.0, 0.0, 1.0]);
        AxisAlignedBoundingBox::intersect_slabs(near, far)
    };
    let gate = hit.expect("the ray passes the box");
    assert!(gate.is_aabb);
    assert_eq!(
        gate,
        IntersectionInfo {
            t_intersection: 0,
            point_of_intersection: v3(0.0, 0.0, 0.0),
            normal: v3(0.0, 0.0, 0.0),
            is_aabb: true,
        }
    );
}

#[test]
fn ray_pointing_away_from_the_box_misses() {
    assert!(!passes(&unit_cube(), [5.0, 0.0, 0.0], [1.0, 0.0, 0.0]));
    assert!(!passes(&unit_cube(), [0.0, 0.0, 5.0], [0.0, 0.0, 1.0]));
    assert!(!passes(&unit_cube(), [0.0, -3.0, 0.0], [0.0, -1.0, 0.0]));
    assert!(!passes(&unit_cube(), [5.0, 5.0, 5.0], [1.0, 2.0, 3.0]));
    assert!(!passes(&unit_cube(), [-5.0, 3.0, 0.0], [-1.0, -1.0, 0.0]));
}

#[test]
fn ray_beside_the_box_misses() {
    assert!(!passes(&unit_cube(), [0.0, 5.0, -5.0], [0.0, 0.0, 1.0]));
    assert!(!passes(&unit_cube(), [3.0, 0.0, -5.0], [0.0, 0.0, 1.0]));
}

#[test]
fn ray_from_inside_the_box_passes() {
    assert!(passes(&unit_cube(), [0.0, 0.0, 0.0], [1.0, 0.0, 0.0]));
    assert!(passes(&unit_cube(), [0.5, -0.5, 0.25], [0.3, -0.7, 0.2]));
}

#[test]
fn ray_through_a_diagonal_passes() {
    assert!(passes(&unit_cube(), [-5.0, -5.0, -5.0], [1.0, 1.0, 1.0]));
}

#[test]
fn ray_through_a_box_without_thickness_passes() {
    let flat = aabb([0.0, 0.0, 0.0], [1.0, 1.0, 0.0]);
    assert!(passes(&flat, [0.2, 0.2, 1.0], [0.0, 0.0, -1.0]));
    assert!(!passes(&flat, [2.0, 2.0, 1.0], [0.0, 0.0, -1.0]));
}

#[test]
fn slab_test_on_given_parameters() {
    // x: [1, 4], y: [2, 3], z: [0, 10] leaves [2, 3].
    assert!(AxisAlignedBoundingBox::intersect_slabs(v3(1.0, 3.0, 0.0), v3(4.0, 2.0, 10.0)).is_some());
    // x: [1, 2], y: [-3, -2], z: everything: all behind on y, and x ends at 1 = 1.
    assert!(AxisAlignedBoundingBox::intersect_slabs(
        v3(-6.0, -3.0, f64::NEG_INFINITY),
        v3(-4.0, -2.0, f64::INFINITY)
    )
    .is_none());
    // every parameter a NaN: nothing can be said, so the ray does not pass.
    let nan = f64::NAN;
    assert!(AxisAlignedBoundingBox::intersect_slabs(v3(nan, nan, nan), v3(nan, nan, nan)).is_none());
    // a NaN on one axis only leaves the other two to decide.
    assert!(AxisAlignedBoundingBox::intersect_slabs(v3(1.0, nan, 0.0), v3(4.0, nan, 10.0)).is_some());
    assert!(AxisAlignedBoundingBox::intersect_slabs(v3(-4.0, nan, -9.0), v3(-1.0, nan, -2.0)).is_none());
}

#[test]
fn interval_that_shrinks_to_one_parameter_still_passes() {
    // x leaves [4, 6]; y lies behind the origin, and holding the ends inside
    // the interval leaves [4, 4]; z leaves it as it is.
    assert!(AxisAlignedBoundingBox::intersect_slabs(
        v3(4.0, -3.0, f64::NEG_INFINITY),
        v3(6.0, -2.0, f64::INFINITY)
    )
    .is_some());
    // the same ray, from the box and the ray themselves
    assert!(passes(&unit_cube(), [-5.0, 5.0, 0.0], [1.0, 2.0, 0.0]));
    // with the x axis behind the origin as well, nothing is left
    assert!(AxisAlignedBoundingBox::intersect_slabs(
        v3(-6.0, -3.0, f64::NEG_INFINITY),
        v3(-4.0, -2.0, f64::INFINITY)
    )
    .is_none());
}
