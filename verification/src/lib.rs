pub mod accel;
pub mod common;
pub mod framebuffer;
pub mod geometry;
pub mod integrators;
pub mod scene;
pub mod utilities;

pub use crate::framebuffer::{ImageBuffer, Tile};
pub use crate::scene::{FileNames, SceneConfig, SceneGeometries};
