//! Triangles: their boxes, how a mesh is cut into them, and the decisions of
//! the watertight ray test.

use vstd::prelude::*;
use crate::accel::aabb::{AxisAlignedBoundingBox, Boundable};
use crate::utilities::mathutils::{
    fp_eq, fp_gt, fp_lt, fp_max, fp_min, less, maximum, minimum, same_number, Point2, Point3, Vec3,
    Vector2, Vector3, ZERO,
};

verus! {

/// An indexed mesh. `positions` and `normals` hold three scalars per vertex,
/// `texture_coordinates` two, and `indices` three vertex numbers per face.
/// The normals are of unit length.
pub struct TriangleMesh {
    pub positions: Vec<u64>,
    pub normals: Vec<u64>,
    pub texture_coordinates: Vec<u64>,
    pub indices: Vec<u32>,
    pub material_id: Option<usize>,
}

/// One face of a mesh, with the box around its corners.
#[derive(Debug, Clone)]
pub struct Triangle {
    pub positions: Vec<Point3>,
    pub normals: Vec<Vec3>,
    pub texture_coordinates: Vec<Point2>,
    pub bounding_box: AxisAlignedBoundingBox,
}

/// The axes that take the places of x, y and z in the ray test.
#[derive(Debug, Clone, Copy, PartialEq, Eq, Structural)]
pub struct AxisPermutation {
    pub kx: i32,
    pub ky: i32,
    pub kz: i32,
}

/// The scalars of one ray test on which its outcome is decided.
#[derive(Debug, Clone, Copy, PartialEq, Eq, Structural)]
pub struct EdgeTest {
    /// The three signed edge functions of the sheared corners.
    pub e0: u64,
    pub e1: u64,
    pub e2: u64,
    /// Their sum.
    pub det: u64,
    /// The hit distance, still scaled by `det`.
    pub t_scaled: u64,
    /// The ray's largest parameter times `det`.
    pub t_limit: u64,
}

/// Three scalars of `values`, from the place `3 * vertex` on.
pub open spec fn triple_at(values: Seq<u64>, vertex: int) -> Vector3 {
    Vector3 { x: values[3 * vertex], y: values[3 * vertex + 1], z: values[3 * vertex + 2] }
}

/// Two scalars of `values`, from the place `2 * vertex` on.
pub open spec fn pair_at(values: Seq<u64>, vertex: int) -> Vector2 {
    Vector2 { x: values[2 * vertex], y: values[2 * vertex + 1] }
}

/// The box that reaches, on every axis, from the least to the greatest
/// coordinate of three corners.
pub open spec fn box_of_corners(first: Vector3, second: Vector3, third: Vector3) -> AxisAlignedBoundingBox {
    AxisAlignedBoundingBox {
        min: Vector3 {
            x: minimum(minimum(first.x, second.x), third.x),
            y: minimum(minimum(first.y, second.y), third.y),
            z: minimum(minimum(first.z, second.z), third.z),
        },
        max: Vector3 {
            x: maximum(maximum(first.x, second.x), third.x),
            y: maximum(maximum(first.y, second.y), third.y),
            z: maximum(maximum(first.z, second.z), third.z),
        },
    }
}

impl TriangleMesh {
    /// The number of faces.
    pub open spec fn face_count(self) -> int {
        self.indices@.len() as int / 3
    }

    /// The vertex number of corner `corner` of face `face`.
    pub open spec fn vertex_of(self, face: int, corner: int) -> int {
        self.indices@[3 * face + corner] as int
    }

    /// The vertex with the given number has its three coordinates, its normal
    /// and its texture coordinate in the lists.
    pub open spec fn vertex_is_in_range(self, vertex: int) -> bool {
        &&& 3 * vertex + 2 < self.positions@.len()
        &&& 3 * vertex + 2 < self.normals@.len()
        &&& 2 * vertex + 1 < self.texture_coordinates@.len()
    }

    /// Every vertex number that a face uses has its scalars in the three lists.
    pub open spec fn indices_in_range(self) -> bool {
        forall|face: int, corner: int|
            0 <= face < self.face_count() && 0 <= corner < 3 ==> self.vertex_is_in_range(
                #[trigger] self.vertex_of(face, corner),
            )
    }

    /// Whether `triangle` is face number `face` of the mesh.
    pub open spec fn is_face(self, face: int, triangle: Triangle) -> bool {
        &&& triangle.is_well_formed()
        &&& forall|corner: int|
            0 <= corner < 3 ==> {
                &&& #[trigger] triangle.positions@[corner] == triple_at(
                    self.positions@,
                    self.vertex_of(face, corner),
                )
                &&& triangle.normals@[corner] == triple_at(self.normals@, self.vertex_of(face, corner))
                &&& triangle.texture_coordinates@[corner] == pair_at(
                    self.texture_coordinates@,
                    self.vertex_of(face, corner),
                )
            }
        &&& triangle.bounding_box == triangle.corner_box()
    }

    /// Whether every vertex number that a face uses has its scalars in the
    /// three lists, so that the mesh can be cut into its faces.
    pub fn has_indices_in_range(&self) -> (r: bool)
        ensures
            r == self.indices_in_range(),
    {
        let faces: usize = self.indices.len() / 3;
        let mut face: usize = 0;
        while face < faces
            invariant
                faces == self.face_count(),
                0 <= face <= faces,
                forall|f: int, corner: int|
                    0 <= f < face && 0 <= corner < 3 ==> self.vertex_is_in_range(#[trigger] self.vertex_of(f, corner)),
            decreases faces - face,
        {
            let mut corner: usize = 0;
            while corner < 3
                invariant
                    faces == self.face_count(),
                    0 <= face < faces,
                    0 <= corner <= 3,
                    forall|f: int, c: int|
                        0 <= f < face && 0 <= c < 3 ==> self.vertex_is_in_range(#[trigger] self.vertex_of(f, c)),
                    forall|c: int| 0 <= c < corner ==> self.vertex_is_in_range(#[trigger] self.vertex_of(face as int, c)),
                decreases 3 - corner,
            {
                let vertex: usize = self.vertex(face, corner);
                let fits: bool = self.positions.len() >= 3 && vertex <= (self.positions.len() - 3) / 3
                    && self.normals.len() >= 3 && vertex <= (self.normals.len() - 3) / 3
                    && self.texture_coordinates.len() >= 2 && vertex <= (self.texture_coordinates.len() - 2) / 2;
                if !fits {
                    assert(!self.vertex_is_in_range(self.vertex_of(face as int, corner as int)));
                    return false;
                }
                corner = corner + 1;
            }
            face = face + 1;
        }
        true
    }

    /// Cuts the mesh into its faces, in the order of `indices`. Indices beyond
    /// the last full group of three are left out.
    pub fn get_triangles_from_mesh(&self) -> (triangles: Vec<Triangle>)
        requires
            self.indices_in_range(),
        ensures
            triangles@.len() == self.face_count(),
            forall|face: int| 0 <= face < self.face_count() ==> self.is_face(face, #[trigger] triangles@[face]),
    {
        let mut triangles: Vec<Triangle> = Vec::new();
        let faces: usize = self.indices.len() / 3;
        let mut v: usize = 0;
        while v < faces
            invariant
                faces == self.face_count(),
                0 <= v <= faces,
                self.indices_in_range(),
                triangles@.len() == v,
                forall|face: int| 0 <= face < v ==> self.is_face(face, #[trigger] triangles@[face]),
            decreases faces - v,
        {
            let first: Point3 = self.corner_position(v, 0);
            let second: Point3 = self.corner_position(v, 1);
            let third: Point3 = self.corner_position(v, 2);
            let n0: Vec3 = self.corner_normal(v, 0);
            let n1: Vec3 = self.corner_normal(v, 1);
            let n2: Vec3 = self.corner_normal(v, 2);
            let uv0: Point2 = self.corner_texture(v, 0);
            let uv1: Point2 = self.corner_texture(v, 1);
            let uv2: Point2 = self.corner_texture(v, 2);
            let mut triangle = Triangle {
                positions: vec![first, second, third],
                normals: vec![n0, n1, n2],
                texture_coordinates: vec![uv0, uv1, uv2],
                bounding_box: AxisAlignedBoundingBox::default(),
            };
            triangle.bounding_box = triangle.set_bounding_box();
            assert(self.is_face(v as int, triangle));
            triangles.push(triangle);
            v = v + 1;
        }
        triangles
    }

    fn vertex(&self, face: usize, corner: usize) -> (r: usize)
        requires
            face < self.face_count(),
            corner < 3,
        ensures
            r == self.vertex_of(face as int, corner as int),
    {
        let n: usize = self.indices.len();
        assert(3 * face + corner < n) by {
            assert(3 * (n as int / 3) <= n);
        }
        self.indices[3 * face + corner] as usize
    }

    fn corner_position(&self, face: usize, corner: usize) -> (r: Point3)
        requires
            self.indices_in_range(),
            face < self.face_count(),
            corner < 3,
        ensures
            r == triple_at(self.positions@, self.vertex_of(face as int, corner as int)),
    {
        let i: usize = self.vertex(face, corner);
        assert(self.vertex_is_in_range(self.vertex_of(face as int, corner as int)));
        assert(3 * i + 2 < self.positions.len() && 3 * i + 2 < self.normals.len() && 2 * i + 1
            < self.texture_coordinates.len());
        Point3::new(self.positions[3 * i], self.positions[3 * i + 1], self.positions[3 * i + 2])
    }

    fn corner_normal(&self, face: usize, corner: usize) -> (r: Vec3)
        requires
            self.indices_in_range(),
            face < self.face_count(),
            corner < 3,
        ensures
            r == triple_at(self.normals@, self.vertex_of(face as int, corner as int)),
    {
        let i: usize = self.vertex(face, corner);
        assert(self.vertex_is_in_range(self.vertex_of(face as int, corner as int)));
        assert(3 * i + 2 < self.positions.len() && 3 * i + 2 < self.normals.len() && 2 * i + 1
            < self.texture_coordinates.len());
        Vector3::new(self.normals[3 * i], self.normals[3 * i + 1], self.normals[3 * i + 2])
    }

    fn corner_texture(&self, face: usize, corner: usize) -> (r: Point2)
        requires
            self.indices_in_range(),
            face < self.face_count(),
            corner < 3,
        ensures
            r == pair_at(self.texture_coordinates@, self.vertex_of(face as int, corner as int)),
    {
        let i: usize = self.vertex(face, corner);
        assert(self.vertex_is_in_range(self.vertex_of(face as int, corner as int)));
        assert(3 * i + 2 < self.positions.len() && 3 * i + 2 < self.normals.len() && 2 * i + 1
            < self.texture_coordinates.len());
        Point2::new(self.texture_coordinates[2 * i], self.texture_coordinates[2 * i + 1])
    }
}

impl AxisPermutation {
    /// The three axes are 0, 1 and 2 in a rotated order, so none is used twice.
    pub open spec fn is_rotation(self) -> bool {
        &&& 0 <= self.kz < 3
        &&& self.kx == (self.kz + 1) % 3
        &&& self.ky == (self.kx + 1) % 3
    }
}

impl EdgeTest {
    /// The edge functions have mixed signs: one is below zero and one above.
    pub open spec fn edges_disagree(self) -> bool {
        (less(self.e0, ZERO) || less(self.e1, ZERO) || less(self.e2, ZERO)) && (less(ZERO, self.e0)
            || less(ZERO, self.e1) || less(ZERO, self.e2))
    }

    /// The triangle is seen edge-on or has no area.
    pub open spec fn is_degenerate(self) -> bool {
        same_number(self.det, ZERO)
    }

    /// The scaled distance lies outside the ray's interval: for a negative
    /// `det` it is not below zero or below `t_limit`, for a positive `det` it
    /// is not above zero or above `t_limit`.
    pub open spec fn out_of_range(self) -> bool {
        ||| less(self.det, ZERO) && (less_or_same(ZERO, self.t_scaled) || less(self.t_scaled, self.t_limit))
        ||| less(ZERO, self.det) && (less_or_same(self.t_scaled, ZERO) || less(self.t_limit, self.t_scaled))
    }

    /// The ray hits.
    pub open spec fn is_hit(self) -> bool {
        !self.edges_disagree() && !self.is_degenerate() && !self.out_of_range()
    }
}

/// `a <= b` on the encoded numbers.
pub open spec fn less_or_same(a: u64, b: u64) -> bool {
    less(a, b) || same_number(a, b)
}

impl Triangle {
    /// Three corners, each with its normal and texture coordinate.
    pub open spec fn is_well_formed(self) -> bool {
        &&& self.positions@.len() == 3
        &&& self.normals@.len() == 3
        &&& self.texture_coordinates@.len() == 3
    }

    /// The box around the three corners.
    pub open spec fn corner_box(self) -> AxisAlignedBoundingBox {
        box_of_corners(self.positions@[0], self.positions@[1], self.positions@[2])
    }

    /// The box around the three corners.
    pub fn set_bounding_box(&self) -> (r: AxisAlignedBoundingBox)
        requires
            self.positions@.len() == 3,
        ensures
            r == self.corner_box(),
    {
        let first: Point3 = self.positions[0];
        let second: Point3 = self.positions[1];
        let third: Point3 = self.positions[2];
        let x_min: u64 = fp_min(fp_min(first.x, second.x), third.x);
        let y_min: u64 = fp_min(fp_min(first.y, second.y), third.y);
        let z_min: u64 = fp_min(fp_min(first.z, second.z), third.z);
        let min_point: Point3 = Point3::new(x_min, y_min, z_min);

        let x_max: u64 = fp_max(fp_max(first.x, second.x), third.x);
        let y_max: u64 = fp_max(fp_max(first.y, second.y), third.y);
        let z_max: u64 = fp_max(fp_max(first.z, second.z), third.z);
        let max_point: Point3 = Point3::new(x_max, y_max, z_max);
        AxisAlignedBoundingBox::new_aabb(min_point, max_point)
    }

    /// The axes for the ray test: the axis on which `direction` is largest in
    /// magnitude takes the place of z, and the two after it, in turn, those of
    /// x and y.
    pub fn shear_axes(direction: Vector3) -> (r: AxisPermutation)
        ensures
            r.is_rotation(),
            r.kz == direction.abs_spec().dominant_axis(),
    {
        let kz: i32 = direction.abs().max_dimension();
        let mut kx: i32 = kz + 1;
        if kx == 3 {
            kx = 0;
        }
        let mut ky: i32 = kx + 1;
        if ky == 3 {
            ky = 0;
        }
        AxisPermutation { kx, ky, kz }
    }

    /// Decides one ray test from its scalars: a miss where the edge functions
    /// disagree in sign, where their sum is zero, or where the distance is out
    /// of range; a hit otherwise.
    pub fn accepts(test: &EdgeTest) -> (r: bool)
        ensures
            r == test.is_hit(),
            test.is_degenerate() ==> !r,
    {
        if (fp_lt(test.e0, ZERO) || fp_lt(test.e1, ZERO) || fp_lt(test.e2, ZERO)) && (fp_gt(test.e0, ZERO)
            || fp_gt(test.e1, ZERO) || fp_gt(test.e2, ZERO)) {
            return false;
        }
        if fp_eq(test.det, ZERO) {
            return false;
        }
        if fp_lt(test.det, ZERO) && (fp_ge_zero(test.t_scaled) || fp_lt(test.t_scaled, test.t_limit)) {
            return false;
        }
        if fp_gt(test.det, ZERO) && (fp_le_zero(test.t_scaled) || fp_gt(test.t_scaled, test.t_limit)) {
            return false;
        }
        true
    }
}

fn fp_ge_zero(a: u64) -> (r: bool)
    ensures
        r == less_or_same(ZERO, a),
{
    fp_gt(a, ZERO) || fp_eq(a, ZERO)
}

fn fp_le_zero(a: u64) -> (r: bool)
    ensures
        r == less_or_same(a, ZERO),
{
    fp_lt(a, ZERO) || fp_eq(a, ZERO)
}

impl Boundable for Triangle {
    open spec fn bounds(&self) -> AxisAlignedBoundingBox {
        self.bounding_box
    }

    fn get_bounding_box(&self) -> (r: AxisAlignedBoundingBox) {
        self.bounding_box
    }
}

/// The box around three corners without NaN contains each of them.
pub proof fn lemma_box_of_corners_contains(first: Vector3, second: Vector3, third: Vector3)
    requires
        first.is_numeric(),
        second.is_numeric(),
        third.is_numeric(),
    ensures
        box_of_corners(first, second, third).is_numeric(),
        box_of_corners(first, second, third).contains(AxisAlignedBoundingBox { min: first, max: first }),
        box_of_corners(first, second, third).contains(AxisAlignedBoundingBox { min: second, max: second }),
        box_of_corners(first, second, third).contains(AxisAlignedBoundingBox { min: third, max: third }),
{
}

} // verus!
