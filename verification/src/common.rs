//! Values shared by the geometric tests.

use vstd::prelude::*;
use crate::utilities::mathutils::{Point3, Vec3, Vector3, ZERO};

verus! {

/// Bits of `1e-5`, the smallest ray parameter that counts as a hit.
pub const EPSILON: u64 = 0x3ee4_f8b5_88e3_68f1;

/// Number of pixels in one tile of the image.
pub const TILE_SIZE: usize = 256;

/// What an intersection test reports.
#[derive(Debug, Clone, Copy, PartialEq, Eq, Structural)]
pub struct IntersectionInfo {
    /// Ray parameter of the hit.
    pub t_intersection: u64,
    pub point_of_intersection: Point3,
    pub normal: Vec3,
    /// Set where only a bounding box was hit: such a record carries no surface
    /// point and no normal, and only tells a traversal to descend.
    pub is_aabb: bool,
}

impl IntersectionInfo {
    /// The record that a bounding-box test returns.
    pub open spec fn gate() -> IntersectionInfo {
        IntersectionInfo {
            t_intersection: ZERO,
            point_of_intersection: Vector3 { x: ZERO, y: ZERO, z: ZERO },
            normal: Vector3 { x: ZERO, y: ZERO, z: ZERO },
            is_aabb: true,
        }
    }
}

impl Default for IntersectionInfo {
    fn default() -> (r: Self)
        ensures
            r == (IntersectionInfo {
                t_intersection: ZERO,
                point_of_intersection: Vector3 { x: ZERO, y: ZERO, z: ZERO },
                normal: Vector3 { x: ZERO, y: ZERO, z: ZERO },
                is_aabb: false,
            }),
    {
        IntersectionInfo {
            t_intersection: ZERO,
            point_of_intersection: Vector3::from(ZERO),
            normal: Vector3::from(ZERO),
            is_aabb: false,
        }
    }
}

} // verus!
