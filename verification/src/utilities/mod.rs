pub mod imageutils;
pub mod mathutils;
