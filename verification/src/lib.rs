//! A sphere-marching renderer for signed-distance-field scenes, in fixed-point
//! arithmetic.
//!
//! Every scalar is an `i64` holding a multiple of `1 / SCALE` scene units.
//! The core marches rays through a caller-supplied distance field, classifies
//! each ray as a hit, a miss, or an exhausted iteration budget, and reduces the
//! outcomes into per-pixel depth, proximity, and normal grids.

pub mod camera;
pub mod fixed;
pub mod objects;
pub mod raymarch;
pub mod vec3;
