//! Integer-exact core of a small code-first 3D engine: application lifecycle decisions,
//! input state, mesh topology, GPU readback layout, resource residency, and fluid bookkeeping.

pub mod app;
pub mod asset;
pub mod fluid;
pub mod input;
pub mod mesh;
pub mod render;
pub mod terrain;
pub mod water;
