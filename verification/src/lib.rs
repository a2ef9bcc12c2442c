//! Procedural generation of a ray-tracer scene: three fixed anchor spheres
//! plus any number of small spheres dropped at random so that no new sphere
//! cuts into one already placed, each with a randomly chosen material.
//!
//! All lengths are held as whole thousandths of a scene unit, so the overlap
//! test is exact integer arithmetic.

pub mod geometry;
pub mod laws;
pub mod material;
pub mod table;
pub mod scene;
pub mod source;
