use sayo_pbr_rs::accel::aabb::{surrounding_box, AxisAlignedBoundingBox, Boundable, Geometry};
use sayo_pbr_rs::accel::bvh_node::{BVHNode, Child, SplitAxis};
use sayo_pbr_rs::accel::sorting::{copy_range, merge, sort_along};
use sayo_pbr_rs::common::IntersectionInfo;
use sayo_pbr_rs::geometry::triangle::{EdgeTest, Triangle};
use sayo_pbr_rs::scene::SceneGeometries;
use sayo_pbr_rs::utilities::mathutils::Vector3;

fn v3(x: f64, y: f64, z: f64) -> Vector3 {
    Vector3::new(x.to_bits(), y.to_bits(), z.to_bits())
}

fn arr(v: Vector3) -> [f64; 3] {
    [f64::from_bits(v.x), f64::from_bits(v.y), f64::from_bits(v.z)]
}

fn aabb(min: [f64; 3], max: [f64; 3]) -> AxisAlignedBoundingBox {
    AxisAlignedBoundingBox::new_aabb(v3(min[0], min[1], min[2]), v3(max[0], max[1], max[2]))
}

fn cube_at(id: usize, x: f64, y: f64, z: f64) -> Geometry {
    Geometry { id, bounding_box: aabb([x, y, z], [x + 1.0, y + 1.0, z + 1.0]) }
}

/// The extent of a box: its maximum less its minimum.
fn longest(b: AxisAlignedBoundingBox) -> Vector3 {
    let (min, max) = (arr(b.min), arr(b.max));
    v3(max[0] - min[0], max[1] - min[1], max[2] - min[2])
}

fn ids_of(node: &BVHNode, out: &mut Vec<usize>) {
    for child in [&node.left_child, &node.right_child] {
        match child {
            Child::Leaf(g) => out.push(g.id),
            Child::Inner(n) => ids_of(n, out),
        }
    }
}

fn child_box(child: &Child) -> AxisAlignedBoundingBox {
    match child {
        Child::Leaf(g) => g.bounding_box,
        Child::Inner(n) => n.aabb,
    }
}

fn boxes_are_unions(node: &BVHNode) -> bool {
    let here = node.aabb == surrounding_box(&child_box(&node.left_child), &child_box(&node.right_child));
    let below = [&node.left_child, &node.right_child].iter().all(|c| match c {
        Child::Leaf(_) => true,
        Child::Inner(n) => boxes_are_unions(n),
    });
    here && below
}

fn contains(outer: &AxisAlignedBoundingBox, inner: &AxisAlignedBoundingBox) -> bool {
    let (omin, omax, imin, imax) = (arr(outer.min), arr(outer.max), arr(inner.min), arr(inner.max));
    (0..3).all(|a| omin[a] <= imin[a] && imax[a] <= omax[a])
}

#[test]
fn split_axis_numbers() {
    assert_eq!(SplitAxis::XAxis.index(), 0);
    assert_eq!(SplitAxis::YAxis.index(), 1);
    assert_eq!(SplitAxis::ZAxis.index(), 2);
    assert_eq!(SplitAxis::from_index(0), Some(SplitAxis::XAxis));
    assert_eq!(SplitAxis::from_index(1), Some(SplitAxis::YAxis));
    assert_eq!(SplitAxis::from_index(2), Some(SplitAxis::ZAxis));
    assert_eq!(SplitAxis::from_index(3), None);
    assert_eq!(SplitAxis::from_index(-1), None);
}

#[test]
fn sort_is_ordered_and_stable() {
    let list = vec![
        cube_at(0, 3.0, 0.0, 0.0),
        cube_at(1, 1.0, 5.0, 0.0),
        cube_at(2, 2.0, 4.0, 0.0),
        cube_at(3, 1.0, 3.0, 0.0),
        cube_at(4, -0.0, 2.0, 0.0),
        cube_at(5, 0.0, 1.0, 0.0),
        cube_at(6, 1.0, 0.0, 0.0),
    ];
    let ids = |v: &Vec<Geometry>| v.iter().map(|g| g.id).collect::<Vec<usize>>();
    assert_eq!(ids(&sort_along(list.clone(), 0)), vec![4, 5, 1, 3, 6, 2, 0]);
    assert_eq!(ids(&sort_along(list.clone(), 1)), vec![0, 6, 5, 4, 3, 2, 1]);
    assert_eq!(ids(&sort_along(list.clone(), 2)), vec![0, 1, 2, 3, 4, 5, 6]);
    assert_eq!(ids(&sort_along(vec![], 0)), Vec::<usize>::new());
    assert_eq!(ids(&sort_along(vec![list[2]], 1)), vec![2]);
}

#[test]
fn sort_agrees_with_the_stable_sort_of_the_standard_library() {
    let mut state: u64 = 12345;
    let mut next = move || {
        state = state.wrapping_mul(6364136223846793005).wrapping_add(1442695040888963407);
        ((state >> 33) % 17) as f64 - 8.0
    };
    for n in [2usize, 3, 8, 31, 100] {
        let list: Vec<Geometry> = (0..n).map(|i| cube_at(i, next(), next(), next())).collect();
        for axis in 0..3 {
            let mut expected = list.clone();
            expected.sort_by(|a, b| {
                arr(a.bounding_box.min)[axis].partial_cmp(&arr(b.bounding_box.min)[axis]).unwrap()
            });
            assert_eq!(sort_along(list.clone(), axis as i32), expected);
        }
    }
}

#[test]
fn merge_and_copy() {
    let a = vec![cube_at(0, 1.0, 0.0, 0.0), cube_at(1, 3.0, 0.0, 0.0)];
    let b = vec![cube_at(2, 1.0, 0.0, 0.0), cube_at(3, 2.0, 0.0, 0.0)];
    let m = merge(&a, &b, 0);
    assert_eq!(m.iter().map(|g| g.id).collect::<Vec<usize>>(), vec![0, 2, 3, 1]);
    assert_eq!(copy_range(&m, 1, 3), vec![m[1], m[2]]);
    assert_eq!(copy_range(&m, 2, 2), vec![]);
}

#[test]
fn hierarchy_of_one_primitive() {
    let g = cube_at(7, 1.0, 2.0, 3.0);
    let node = BVHNode::construct_bvh(vec![g], &longest);
    assert_eq!(node, BVHNode { aabb: g.bounding_box, left_child: Child::Leaf(g), right_child: Child::Leaf(g) });
    assert_eq!(node.get_bounding_box(), g.bounding_box);
}

#[test]
fn hierarchy_of_two_primitives() {
    let (a, b) = (cube_at(0, 5.0, 0.0, 0.0), cube_at(1, 0.0, 0.0, 0.0));
    let node = BVHNode::construct_bvh(vec![a, b], &longest);
    assert_eq!(
        node,
        BVHNode {
            aabb: aabb([0.0, 0.0, 0.0], [6.0, 1.0, 1.0]),
            left_child: Child::Leaf(a),
            right_child: Child::Leaf(b),
        }
    );
}

#[test]
fn hierarchy_of_three_primitives_splits_along_the_longest_axis() {
    let list = vec![cube_at(0, 0.0, 9.0, 0.0), cube_at(1, 0.0, 0.0, 0.0), cube_at(2, 0.0, 4.0, 0.0)];
    let node = BVHNode::construct_bvh(list.clone(), &longest);
    let left = BVHNode {
        aabb: list[1].bounding_box,
        left_child: Child::Leaf(list[1]),
        right_child: Child::Leaf(list[1]),
    };
    let right = BVHNode {
        aabb: aabb([0.0, 4.0, 0.0], [1.0, 10.0, 1.0]),
        left_child: Child::Leaf(list[2]),
        right_child: Child::Leaf(list[0]),
    };
    assert_eq!(
        node,
        BVHNode {
            aabb: aabb([0.0, 0.0, 0.0], [1.0, 10.0, 1.0]),
            left_child: Child::Inner(Box::new(left)),
            right_child: Child::Inner(Box::new(right)),
        }
    );
}

#[test]
fn hierarchy_of_five_primitives_is_cut_at_the_middle() {
    let list: Vec<Geometry> = (0..5).map(|i| cube_at(i, (4 - i) as f64 * 2.0, 0.0, 0.0)).collect();
    let node = BVHNode::construct_bvh(list, &longest);
    let mut ids = vec![];
    ids_of(&node, &mut ids);
    assert_eq!(ids, vec![4, 3, 2, 2, 1, 0]);
    match (&node.left_child, &node.right_child) {
        (Child::Inner(l), Child::Inner(r)) => {
            assert_eq!(l.aabb, aabb([0.0, 0.0, 0.0], [3.0, 1.0, 1.0]));
            assert_eq!(r.aabb, aabb([4.0, 0.0, 0.0], [9.0, 1.0, 1.0]));
        }
        _ => panic!("a node over five primitives has two nodes below it"),
    }
}

#[test]
fn hierarchy_is_split_along_the_axis_of_the_largest_extent() {
    let list: Vec<Geometry> =
        (0..4).map(|i| cube_at(i, (4 - i) as f64, i as f64, ((i * 3) % 4) as f64)).collect();
    let order = |extent: [f64; 3]| {
        let node = BVHNode::construct_bvh(list.clone(), &|_b: AxisAlignedBoundingBox| v3(extent[0], extent[1], extent[2]));
        let mut ids = vec![];
        ids_of(&node, &mut ids);
        ids
    };
    assert_eq!(order([3.0, 1.0, 1.0]), vec![3, 2, 1, 0]);
    assert_eq!(order([1.0, 3.0, 1.0]), vec![0, 1, 2, 3]);
    assert_eq!(order([1.0, 1.0, 3.0]), vec![0, 3, 2, 1]);
    assert_eq!(order([2.0, 2.0, 2.0]), vec![3, 2, 1, 0]);
    assert_eq!(order([f64::NAN, f64::NAN, f64::NAN]), vec![3, 2, 1, 0]);
}

fn scattered(n: usize, seed: u64) -> Vec<Geometry> {
    let mut state = seed;
    let mut next = move || {
        state = state.wrapping_mul(6364136223846793005).wrapping_add(1442695040888963407);
        ((state >> 11) as f64 / (1u64 << 53) as f64) * 20.0 - 10.0
    };
    (0..n)
        .map(|id| {
            let (x, y, z) = (next(), next(), next());
            let (w, h, d) = (next().abs() * 0.2, next().abs() * 0.2, next().abs() * 0.2);
            Geometry { id, bounding_box: aabb([x, y, z], [x + w, y + h, z + d]) }
        })
        .collect()
}

#[test]
fn root_box_contains_every_primitive() {
    for n in [1usize, 2, 3, 4, 7, 64, 129] {
        let list = scattered(n, n as u64);
        let node = BVHNode::construct_bvh(list.clone(), &longest);
        assert!(boxes_are_unions(&node));
        for g in list.iter() {
            assert!(contains(&node.aabb, &g.bounding_box));
        }
        let mut ids = vec![];
        ids_of(&node, &mut ids);
        ids.sort();
        ids.dedup();
        assert_eq!(ids, (0..n).collect::<Vec<usize>>());
    }
}

#[test]
fn building_twice_gives_the_same_hierarchy() {
    for n in [1usize, 2, 3, 10, 57] {
        let list = scattered(n, 99);
        let first = BVHNode::construct_bvh(list.clone(), &longest);
        let second = BVHNode::construct_bvh(list, &longest);
        assert_eq!(first, second);
    }
}

fn sub(a: [f64; 3], b: [f64; 3]) -> [f64; 3] {
    [a[0] - b[0], a[1] - b[1], a[2] - b[2]]
}

/// The ray test of one triangle: the arithmetic here, the decision in the library.
fn hit_triangle(p: &[[f64; 3]; 3], o: [f64; 3], d: [f64; 3]) -> Option<IntersectionInfo> {
    let axes = Triangle::shear_axes(v3(d[0], d[1], d[2]));
    let dp = arr(v3(d[0], d[1], d[2]).permute(axes.kx, axes.ky, axes.kz));
    let mut q = [[0.0f64; 3]; 3];
    for i in 0..3 {
        let t = sub(p[i], o);
        q[i] = arr(v3(t[0], t[1], t[2]).permute(axes.kx, axes.ky, axes.kz));
    }
    let (sx, sy, sz) = (-dp[0] / dp[2], -dp[1] / dp[2], 1.0 / dp[2]);
    for i in 0..3 {
        q[i][0] += sx * q[i][2];
        q[i][1] += sy * q[i][2];
    }
    let e0 = q[1][0] * q[2][1] - q[1][1] * q[2][0];
    let e1 = q[2][0] * q[0][1] - q[2][1] * q[0][0];
    let e2 = q[0][0] * q[1][1] - q[0][1] * q[1][0];
    let det = e0 + e1 + e2;
    let t_scaled = e0 * q[0][2] * sz + e1 * q[1][2] * sz + e2 * q[2][2] * sz;
    let test = EdgeTest {
        e0: e0.to_bits(),
        e1: e1.to_bits(),
        e2: e2.to_bits(),
        det: det.to_bits(),
        t_scaled: t_scaled.to_bits(),
        t_limit: (f64::INFINITY * det).to_bits(),
    };
    if !Triangle::accepts(&test) {
        return None;
    }
    Some(IntersectionInfo {
        t_intersection: (t_scaled / det).to_bits(),
        point_of_intersection: v3(0.0, 0.0, 0.0),
        normal: v3(0.0, 0.0, 1.0),
        is_aabb: false,
    })
}

fn slab_parameters(b: AxisAlignedBoundingBox, o: [f64; 3], d: [f64; 3]) -> (Vector3, Vector3) {
    let (min, max) = (arr(b.min), arr(b.max));
    let mut near = [0.0f64; 3];
    let mut far = [0.0f64; 3];
    for a in 0..3 {
        let inv = 1.0 / d[a];
        near[a] = (min[a] - o[a]) * inv;
        far[a] = (max[a] - o[a]) * inv;
    }
    (v3(near[0], near[1], near[2]), v3(far[0], far[1], far[2]))
}

fn box_of(p: &[[f64; 3]; 3]) -> AxisAlignedBoundingBox {
    let t = Triangle {
        positions: p.iter().map(|c| v3(c[0], c[1], c[2])).collect(),
        normals: vec![],
        texture_coordinates: vec![],
        bounding_box: AxisAlignedBoundingBox::default(),
    };
    t.set_bounding_box()
}

#[test]
fn search_agrees_with_trying_every_primitive() {
    let mut state: u64 = 2024;
    let mut next = move || {
        state = state.wrapping_mul(6364136223846793005).wrapping_add(1442695040888963407);
        ((state >> 11) as f64 / (1u64 << 53) as f64) * 2.0 - 1.0
    };
    let mut triangles: Vec<[[f64; 3]; 3]> = vec![];
    for _ in 0..60 {
        let c = [next() * 5.0, next() * 5.0, next() * 5.0];
        let mut t = [[0.0f64; 3]; 3];
        for corner in t.iter_mut() {
            *corner = [c[0] + next(), c[1] + next(), c[2] + next()];
        }
        triangles.push(t);
    }
    let geometries: Vec<Geometry> =
        triangles.iter().enumerate().map(|(id, t)| Geometry { id, bounding_box: box_of(t) }).collect();
    let root = BVHNode::construct_bvh(geometries.clone(), &longest);
    let scene = SceneGeometries { geometries };
    let mut hits = 0;
    for k in 0..400 {
        let o = [next() * 8.0, next() * 8.0, next() * 8.0];
        let aim = &triangles[k % triangles.len()];
        let jitter = if k % 4 == 0 { 1.5 } else { 0.0 };
        let mut d = [0.0f64; 3];
        for a in 0..3 {
            d[a] = (aim[0][a] + aim[1][a] + aim[2][a]) / 3.0 + next() * jitter - o[a];
        }
        let slabs = |b: AxisAlignedBoundingBox| slab_parameters(b, o, d);
        let hit = |g: Geometry| hit_triangle(&triangles[g.id], o, d);
        let searched = root.check_intersection_and_return_closest_hit(&slabs, &hit);
        let tried = scene.check_intersection_return_closest_hit(&hit);
        assert_eq!(searched.is_some(), tried.is_some());
        if let (Some(a), Some(b)) = (searched, tried) {
            hits += 1;
            assert_eq!(f64::from_bits(a.t_intersection), f64::from_bits(b.t_intersection));
        }
    }
    assert!(hits > 200);
}

fn at(t: f64) -> Option<IntersectionInfo> {
    Some(IntersectionInfo {
        t_intersection: t.to_bits(),
        point_of_intersection: v3(0.0, 0.0, 0.0),
        normal: v3(t, 0.0, 0.0),
        is_aabb: false,
    })
}

#[test]
fn search_prefers_the_strictly_closer_hit_and_the_right_one_on_a_tie() {
    let list = vec![cube_at(0, 0.0, 0.0, 0.0), cube_at(1, 2.0, 0.0, 0.0)];
    let root = BVHNode::construct_bvh(list, &longest);
    let open = |_b: AxisAlignedBoundingBox| (v3(1.0, 1.0, 1.0), v3(2.0, 2.0, 2.0));
    let shut = |_b: AxisAlignedBoundingBox| (v3(-2.0, -2.0, -2.0), v3(-1.0, -1.0, -1.0));
    let pick = |root: &BVHNode, l: Option<f64>, r: Option<f64>| {
        let hit = |g: Geometry| if g.id == 0 { l.and_then(at) } else { r.and_then(at) };
        root.check_intersection_and_return_closest_hit(&open, &hit).map(|h| (arr(h.normal)[0], h.t_intersection))
    };
    assert_eq!(pick(&root, None, None), None);
    assert_eq!(pick(&root, Some(3.0), None), Some((3.0, 3.0f64.to_bits())));
    assert_eq!(pick(&root, None, Some(4.0)), Some((4.0, 4.0f64.to_bits())));
    assert_eq!(pick(&root, Some(3.0), Some(4.0)), Some((3.0, 3.0f64.to_bits())));
    assert_eq!(pick(&root, Some(4.0), Some(3.0)), Some((3.0, 3.0f64.to_bits())));
    // on a tie the right one: the zeros are equal, and the right one is -0.0
    assert_eq!(pick(&root, Some(0.0), Some(-0.0)), Some((-0.0, (-0.0f64).to_bits())));
    let hit = |_g: Geometry| at(1.0);
    assert_eq!(root.check_intersection_and_return_closest_hit(&shut, &hit), None);
}

#[test]
fn scan_keeps_the_first_of_equal_hits_and_drops_infinite_ones() {
    let scene = SceneGeometries { geometries: (0..4).map(|i| cube_at(i, i as f64, 0.0, 0.0)).collect() };
    let run = |ts: [Option<f64>; 4]| {
        let hit = |g: Geometry| {
            ts[g.id].map(|t| IntersectionInfo {
                t_intersection: t.to_bits(),
                point_of_intersection: v3(0.0, 0.0, 0.0),
                normal: v3(g.id as f64, 0.0, 0.0),
                is_aabb: false,
            })
        };
        scene.check_intersection_return_closest_hit(&hit).map(|h| arr(h.normal)[0] as usize)
    };
    assert_eq!(run([None, None, None, None]), None);
    assert_eq!(run([Some(5.0), Some(2.0), Some(2.0), Some(9.0)]), Some(1));
    assert_eq!(run([None, Some(f64::INFINITY), None, None]), None);
    assert_eq!(run([Some(f64::NAN), Some(1.0), None, Some(f64::NAN)]), Some(1));
    assert_eq!(run([Some(3.0), None, None, Some(-1.0)]), Some(3));
}
