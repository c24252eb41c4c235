//! Per-frame resource sizing and scene-expansion planning for an instanced 2D renderer.
pub mod buffer_structs;
pub mod capacity;
pub mod engine;
pub mod expansion;
pub mod model;
pub mod render;
pub mod scene;
