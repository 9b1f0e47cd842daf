pub mod aabb;
pub mod bvh_laws;
pub mod bvh_node;
pub mod sorting;
